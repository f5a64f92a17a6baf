//! The rows that the poller writes to the database, built from the API data.
//!
//! Each map becomes one row of `maps`; each record becomes one row of
//! `users` (its player) and one row of `records` (its run). Rows borrow the
//! text they carry from the data they were built from. Running the upserts
//! (insert, or update the row with the same key) is left to the caller.

use std::collections::HashMap;
use vstd::prelude::*;

use crate::models::{Author, MapDetails, Record};

verus! {

/// The text of an optional string.
pub open spec fn opt_string_view(o: Option<String>) -> Option<Seq<char>> {
    match o {
        Some(s) => Some(s@),
        None => None,
    }
}

/// The text of an optional string slice.
pub open spec fn opt_str_view(o: Option<&str>) -> Option<Seq<char>> {
    match o {
        Some(s) => Some(s@),
        None => None,
    }
}

/// A row of the `maps` table.
#[derive(Debug, Clone, Copy)]
pub struct MapRow<'a> {
    pub id: i32,
    pub name: &'a str,
    pub tier_soldier: i16,
    pub tier_demoman: i16,
    pub rating_soldier: i16,
    pub rating_demoman: i16,
    /// Stored as a JSON object from zone kind to count.
    pub zone_counts: &'a HashMap<String, i32>,
    /// Stored as a JSON array of authors.
    pub authors: &'a [Author],
    pub video_soldier: Option<&'a str>,
    pub video_demoman: Option<&'a str>,
}

/// A row of the `users` table: a player, keyed by `id`.
#[derive(Debug, Clone, Copy)]
pub struct UserRow<'a> {
    pub id: i32,
    pub steamid: &'a str,
    pub name: &'a str,
}

/// A row of the `records` table: a player's best run on a map with a class,
/// keyed by (`user_id`, `map_id`, `class`).
#[derive(Debug, Clone, Copy, PartialEq, Eq)]
pub struct RecordRow {
    pub id: i32,
    pub map_id: i32,
    pub user_id: i32,
    pub class: i16,
    /// Bit pattern of the duration in seconds, as the record holds it.
    pub duration_bits: u64,
    /// Bit pattern of the date in seconds since the Unix epoch, as the record holds it.
    pub date_bits: u64,
}

/// `row` holds the player of `rec`.
pub open spec fn user_row_of(row: UserRow, rec: Record) -> bool {
    &&& row.id == rec.user_id
    &&& row.steamid@ == rec.steamid@
    &&& row.name@ == rec.name@
}

/// `row` holds the run of `rec` on map `map_id`.
pub open spec fn record_row_of(row: RecordRow, map_id: i32, rec: Record) -> bool {
    &&& row.id == rec.id
    &&& row.map_id == map_id
    &&& row.user_id == rec.user_id
    &&& row.class == rec.class
    &&& row.duration_bits == rec.duration_bits
    &&& row.date_bits == rec.date_bits
}

/// A user row holds its record's player exactly: the user id as the key,
/// the steamid in the steamid column and the name in the name column,
/// whatever the record's class.
pub proof fn law_user_row_is_the_player(row: UserRow, rec: Record)
    requires
        user_row_of(row, rec),
    ensures
        row.id == rec.user_id,
        row.steamid@ == rec.steamid@,
        row.name@ == rec.name@,
{
}

/// Every record row of a map's records is stored under that map, whatever
/// the record's class or zone, and carries the record's own run.
pub proof fn law_record_rows_store_under_their_map(
    map_id: i32,
    records: Seq<Record>,
    rows: Seq<RecordRow>,
)
    requires
        rows.len() == records.len(),
        forall|i: int| 0 <= i < records.len() ==> record_row_of(#[trigger] rows[i], map_id, records[i]),
    ensures
        forall|i: int|
            0 <= i < rows.len() ==> {
                &&& (#[trigger] rows[i]).map_id == map_id
                &&& rows[i].id == records[i].id
                &&& rows[i].user_id == records[i].user_id
                &&& rows[i].class == records[i].class
                &&& rows[i].duration_bits == records[i].duration_bits
                &&& rows[i].date_bits == records[i].date_bits
            },
{
    assert forall|i: int| 0 <= i < rows.len() implies (#[trigger] rows[i]).map_id == map_id by {
        assert(record_row_of(rows[i], map_id, records[i]));
    }
}

fn opt_as_str(o: &Option<String>) -> (r: Option<&str>)
    ensures
        opt_str_view(r) == opt_string_view(*o),
{
    match o {
        Some(s) => Some(s.as_str()),
        None => None,
    }
}

/// The `maps` row of `map`.
pub fn map_row(map: &MapDetails) -> (row: MapRow<'_>)
    ensures
        row.id == map.id,
        row.name@ == map.name@,
        row.tier_soldier == map.tier_info.soldier,
        row.tier_demoman == map.tier_info.demoman,
        row.rating_soldier == map.rating_info.soldier,
        row.rating_demoman == map.rating_info.demoman,
        *row.zone_counts == map.zone_counts,
        row.authors@ == map.authors@,
        opt_str_view(row.video_soldier) == opt_string_view(map.videos.soldier),
        opt_str_view(row.video_demoman) == opt_string_view(map.videos.demoman),
{
    MapRow {
        id: map.id,
        name: map.name.as_str(),
        tier_soldier: map.tier_info.soldier as i16,
        tier_demoman: map.tier_info.demoman as i16,
        rating_soldier: map.rating_info.soldier as i16,
        rating_demoman: map.rating_info.demoman as i16,
        zone_counts: &map.zone_counts,
        authors: map.authors.as_slice(),
        video_soldier: opt_as_str(&map.videos.soldier),
        video_demoman: opt_as_str(&map.videos.demoman),
    }
}

/// The `users` rows of `records`: one per record, in order.
pub fn user_rows(records: &[Record]) -> (rows: Vec<UserRow<'_>>)
    ensures
        rows.len() == records.len(),
        forall|i: int| 0 <= i < records.len() ==> user_row_of(#[trigger] rows[i], records[i]),
        forall|i: int|
            0 <= i < records.len() ==> {
                &&& (#[trigger] rows[i]).id == records[i].user_id
                &&& rows[i].steamid@ == records[i].steamid@
                &&& rows[i].name@ == records[i].name@
            },
{
    let mut rows: Vec<UserRow> = Vec::new();
    let n = records.len();
    for i in 0..n
        invariant
            n == records.len(),
            rows.len() == i,
            forall|j: int| 0 <= j < i ==> user_row_of(#[trigger] rows[j], records[j]),
    {
        let rec = &records[i];
        rows.push(UserRow { id: rec.user_id, steamid: rec.steamid.as_str(), name: rec.name.as_str() });
    }
    rows
}

/// The `records` rows of `records` on map `map_id`: one per record, in order.
pub fn record_rows(map_id: i32, records: &[Record]) -> (rows: Vec<RecordRow>)
    ensures
        rows.len() == records.len(),
        forall|i: int|
            0 <= i < records.len() ==> record_row_of(#[trigger] rows[i], map_id, records[i]),
        forall|i: int|
            0 <= i < records.len() ==> {
                &&& (#[trigger] rows[i]).map_id == map_id
                &&& rows[i].id == records[i].id
                &&& rows[i].user_id == records[i].user_id
                &&& rows[i].class == records[i].class
                &&& rows[i].duration_bits == records[i].duration_bits
                &&& rows[i].date_bits == records[i].date_bits
            },
{
    let mut rows: Vec<RecordRow> = Vec::new();
    let n = records.len();
    for i in 0..n
        invariant
            n == records.len(),
            rows.len() == i,
            forall|j: int| 0 <= j < i ==> record_row_of(#[trigger] rows[j], map_id, records[j]),
    {
        let rec = &records[i];
        rows.push(
            RecordRow {
                id: rec.id,
                map_id,
                user_id: rec.user_id,
                class: rec.class as i16,
                duration_bits: rec.duration_bits,
                date_bits: rec.date_bits,
            },
        );
    }
    rows
}

} // verus!
