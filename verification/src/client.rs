//! What a client of the Tempus API decides: which URL to ask, whether a
//! response is a success, and how much of a body to quote in an error.
//!
//! Sending the requests and reading the responses is left to the caller.

use vstd::prelude::*;
use vstd::string::StringSliceAdditionalSpecFns;
use vstd::utf8::is_char_boundary;

verus! {

/// The Tempus API that a client talks to unless told otherwise.
pub const DEFAULT_API_BASE: &'static str = "https://tempus2.xyz/api/v0";

/// Path of the list of all maps with their details.
pub const MAPS_DETAILED_LIST: &'static str = "/maps/detailedList";

/// Path of a map's record list up to its id.
pub const MAP_RECORDS_PREFIX: &'static str = "/maps/id/";

/// Path of a map's record list after its id: every record of the main zone.
pub const MAP_RECORDS_SUFFIX: &'static str = "/zones/typeindex/map/1/records/list?limit=0";

/// At most this many bytes of a body are quoted when it cannot be parsed.
pub const EXCERPT_LIMIT: usize = 500;

/// The character of a decimal digit.
pub open spec fn digit_char(d: nat) -> char {
    (d + 48) as char
}

/// The decimal digits of `n`, without leading zeros.
pub open spec fn decimal_digits(n: nat) -> Seq<char>
    decreases n,
{
    if n < 10 {
        seq![digit_char(n)]
    } else {
        decimal_digits(n / 10).push(digit_char(n % 10))
    }
}

/// `n` written in decimal, with a minus sign when it is negative.
pub open spec fn decimal(n: int) -> Seq<char> {
    if n < 0 {
        seq!['-'] + decimal_digits((-n) as nat)
    } else {
        decimal_digits(n as nat)
    }
}

/// The value of a string of decimal digit characters, most significant first.
pub open spec fn numeral_value(s: Seq<char>) -> int
    decreases s.len(),
{
    if s.len() == 0 {
        0
    } else {
        numeral_value(s.drop_last()) * 10 + (s.last() as int - '0' as int)
    }
}

/// Every character of `s` is one of '0' to '9'.
pub open spec fn all_decimal_digits(s: Seq<char>) -> bool {
    forall|i: int| 0 <= i < s.len() ==> '0' <= #[trigger] s[i] && s[i] <= '9'
}

/// Whether an HTTP status code says that the request succeeded (2xx).
pub open spec fn is_success_status(code: u16) -> bool {
    200 <= code < 300
}

/// How many bytes of `body` an error quotes.
pub open spec fn excerpt_len(body: &str) -> int {
    if body.len() < EXCERPT_LIMIT {
        body.len() as int
    } else {
        EXCERPT_LIMIT as int
    }
}

proof fn lemma_decimal_digits_numeral(n: nat)
    ensures
        decimal_digits(n).len() >= 1,
        all_decimal_digits(decimal_digits(n)),
        decimal_digits(n).len() > 1 ==> decimal_digits(n)[0] != '0',
        n >= 1 ==> decimal_digits(n)[0] != '0',
        numeral_value(decimal_digits(n)) == n,
    decreases n,
{
    let c = digit_char(n % 10);
    assert(c as int == n % 10 + 48);
    if n < 10 {
        let s = decimal_digits(n);
        assert(s[0] == c);
        assert(s.drop_last() =~= Seq::<char>::empty());
        assert(numeral_value(s.drop_last()) == 0);
    } else {
        lemma_decimal_digits_numeral(n / 10);
        let head = decimal_digits(n / 10);
        let s = decimal_digits(n);
        assert(s == head.push(c));
        assert(s.drop_last() =~= head);
        assert(s[0] == head[0]);
        assert(n == (n / 10) * 10 + n % 10);
    }
}

/// `decimal(n)` is the standard decimal numeral of `n`: a minus sign exactly
/// when `n` is negative, then at least one digit character '0'..'9', with no
/// leading zero unless the numeral is "0", whose base-10 value is `|n|`.
pub proof fn law_decimal_is_standard_numeral(n: int)
    ensures
        decimal(n).len() >= 1,
        (decimal(n)[0] == '-') <==> n < 0,
        ({
            let digits = if n < 0 { decimal(n).drop_first() } else { decimal(n) };
            &&& digits.len() >= 1
            &&& all_decimal_digits(digits)
            &&& digits.len() > 1 ==> digits[0] != '0'
            &&& numeral_value(digits) == if n < 0 { -n } else { n }
        }),
{
    if n < 0 {
        lemma_decimal_digits_numeral((-n) as nat);
        assert((seq!['-'] + decimal_digits((-n) as nat)).drop_first() =~= decimal_digits((-n) as nat));
    } else {
        lemma_decimal_digits_numeral(n as nat);
        let d = decimal_digits(n as nat);
        assert(all_decimal_digits(d));
        assert('0' <= d[0]);
    }
}

/// Exactly the 2xx codes are successes: every informational (1xx),
/// redirect (3xx), client error (4xx) and server error (5xx) code is not.
pub proof fn law_success_is_exactly_2xx(code: u16)
    ensures
        is_success_status(code) <==> 200 <= code && code <= 299,
        code < 200 ==> !is_success_status(code),
        300 <= code ==> !is_success_status(code),
        500 <= code && code <= 599 ==> !is_success_status(code),
{
}

/// An error quotes the whole body when it is shorter than 500 bytes, and
/// its first 500 bytes otherwise.
pub proof fn law_excerpt_is_at_most_500_bytes(body: &str)
    ensures
        body.len() < 500 ==> excerpt_len(body) == body.len(),
        body.len() >= 500 ==> excerpt_len(body) == 500,
        0 <= excerpt_len(body) <= 500,
{
}

/// A response that the API refused.
#[derive(Debug, Clone, Copy, PartialEq, Eq, Structural)]
pub enum FetchError {
    /// The response's status code was not a success.
    HttpStatus(u16),
}

/// Whether a response with status `code` may be read, or the error it gives.
pub fn check_status(code: u16) -> (r: Result<(), FetchError>)
    ensures
        r is Ok <==> 200 <= code && code <= 299,
        r is Err ==> r == Err::<(), FetchError>(FetchError::HttpStatus(code)),
        r == (if is_success_status(code) {
            Ok(())
        } else {
            Err(FetchError::HttpStatus(code))
        }),
{
    if 200 <= code && code < 300 {
        Ok(())
    } else {
        Err(FetchError::HttpStatus(code))
    }
}

/// The first bytes of `body` (at most [`EXCERPT_LIMIT`]) that an error
/// quotes; `None` where that many bytes would end inside a character.
pub fn response_excerpt(body: &str) -> (r: Option<&str>)
    ensures
        r is Some <==> is_char_boundary(body.spec_bytes(), excerpt_len(body)),
        r matches Some(e) ==> e.spec_bytes() == body.spec_bytes().take(excerpt_len(body)),
{
    let len = body.len();
    let n = if len < EXCERPT_LIMIT {
        len
    } else {
        EXCERPT_LIMIT
    };
    if body.is_char_boundary(n) {
        let (head, _tail) = body.split_at(n);
        Some(head)
    } else {
        None
    }
}

/// The one-character string of a decimal digit.
fn digit_str(d: u32) -> (s: &'static str)
    requires
        d < 10,
    ensures
        s@ == seq![digit_char(d as nat)],
{
    proof {
        reveal_strlit("0");
        reveal_strlit("1");
        reveal_strlit("2");
        reveal_strlit("3");
        reveal_strlit("4");
        reveal_strlit("5");
        reveal_strlit("6");
        reveal_strlit("7");
        reveal_strlit("8");
        reveal_strlit("9");
    }
    if d == 0 {
        "0"
    } else if d == 1 {
        "1"
    } else if d == 2 {
        "2"
    } else if d == 3 {
        "3"
    } else if d == 4 {
        "4"
    } else if d == 5 {
        "5"
    } else if d == 6 {
        "6"
    } else if d == 7 {
        "7"
    } else if d == 8 {
        "8"
    } else {
        "9"
    }
}

/// Appends the decimal digits of `n` to `s`.
fn push_decimal_digits(s: &mut String, n: u32)
    ensures
        final(s)@ == old(s)@ + decimal_digits(n as nat),
    decreases n,
{
    if n >= 10 {
        push_decimal_digits(s, n / 10);
    }
    let d = digit_str(n % 10);
    s.append(d);
    assert(s@ =~= old(s)@ + decimal_digits(n as nat));
}

/// Appends `n` in decimal to `s`.
fn push_decimal(s: &mut String, n: i32)
    ensures
        final(s)@ == old(s)@ + decimal(n as int),
{
    if n < 0 {
        s.append("-");
        let magnitude: i64 = -(n as i64);
        push_decimal_digits(s, magnitude as u32);
        proof {
            reveal_strlit("-");
            assert(final(s)@ =~= old(s)@ + decimal(n as int));
        }
    } else {
        push_decimal_digits(s, n as u32);
    }
}

/// A client of the Tempus API, known by the base URL it talks to.
#[derive(Debug, Clone)]
pub struct TempusClient {
    base: String,
}

impl View for TempusClient {
    type V = Seq<char>;

    /// The base URL.
    closed spec fn view(&self) -> Seq<char> {
        self.base@
    }
}

impl TempusClient {
    /// A client of the public Tempus API.
    pub fn new() -> (c: TempusClient)
        ensures
            c@ == DEFAULT_API_BASE@,
    {
        Self::new_with_base(DEFAULT_API_BASE)
    }

    /// A client of the API at `base`.
    pub fn new_with_base(base: &str) -> (c: TempusClient)
        ensures
            c@ == base@,
    {
        TempusClient { base: base.to_owned() }
    }

    /// The base URL.
    pub fn base(&self) -> (b: &str)
        ensures
            b@ == self@,
    {
        self.base.as_str()
    }

    /// The URL of the list of all maps with their details.
    pub fn maps_url(&self) -> (url: String)
        ensures
            url@ == self@ + MAPS_DETAILED_LIST@,
    {
        self.base.clone().concat(MAPS_DETAILED_LIST)
    }

    /// The URL of every record on the main zone of map `map_id`.
    pub fn map_records_url(&self, map_id: i32) -> (url: String)
        ensures
            url@ == self@ + MAP_RECORDS_PREFIX@ + decimal(map_id as int) + MAP_RECORDS_SUFFIX@,
    {
        let mut url = self.base.clone();
        url.append(MAP_RECORDS_PREFIX);
        push_decimal(&mut url, map_id);
        url.append(MAP_RECORDS_SUFFIX);
        url
    }
}

} // verus!
