use tempuspoints_poller::client::{
    check_status, response_excerpt, FetchError, TempusClient, DEFAULT_API_BASE, EXCERPT_LIMIT,
};

#[test]
fn new_uses_public_api() {
    let client = TempusClient::new();
    assert_eq!(client.base(), "https://tempus2.xyz/api/v0");
    assert_eq!(client.base(), DEFAULT_API_BASE);
}

#[test]
fn new_with_base_keeps_base() {
    let client = TempusClient::new_with_base("http://127.0.0.1:4000");
    assert_eq!(client.base(), "http://127.0.0.1:4000");
}

#[test]
fn maps_url_appends_detailed_list() {
    let client = TempusClient::new();
    assert_eq!(client.maps_url(), "https://tempus2.xyz/api/v0/maps/detailedList");
    let local = TempusClient::new_with_base("http://127.0.0.1:4000");
    assert_eq!(local.maps_url(), "http://127.0.0.1:4000/maps/detailedList");
}

#[test]
fn map_records_url_names_the_map() {
    let client = TempusClient::new_with_base("http://127.0.0.1:4000");
    assert_eq!(
        client.map_records_url(136),
        "http://127.0.0.1:4000/maps/id/136/zones/typeindex/map/1/records/list?limit=0"
    );
}

#[test]
fn map_records_url_single_digit_and_zero() {
    let client = TempusClient::new_with_base("b");
    assert_eq!(client.map_records_url(0), "b/maps/id/0/zones/typeindex/map/1/records/list?limit=0");
    assert_eq!(client.map_records_url(7), "b/maps/id/7/zones/typeindex/map/1/records/list?limit=0");
    assert_eq!(client.map_records_url(10), "b/maps/id/10/zones/typeindex/map/1/records/list?limit=0");
}

#[test]
fn map_records_url_extreme_ids() {
    let client = TempusClient::new_with_base("");
    for id in [i32::MIN, -1, i32::MAX, 1_000_000, 99, 100] {
        assert_eq!(
            client.map_records_url(id),
            format!("/maps/id/{id}/zones/typeindex/map/1/records/list?limit=0")
        );
    }
}

#[test]
fn status_success_range() {
    assert_eq!(check_status(200), Ok(()));
    assert_eq!(check_status(204), Ok(()));
    assert_eq!(check_status(299), Ok(()));
}

#[test]
fn status_outside_success_range() {
    assert_eq!(check_status(199), Err(FetchError::HttpStatus(199)));
    assert_eq!(check_status(300), Err(FetchError::HttpStatus(300)));
    assert_eq!(check_status(404), Err(FetchError::HttpStatus(404)));
    assert_eq!(check_status(500), Err(FetchError::HttpStatus(500)));
    assert_eq!(check_status(0), Err(FetchError::HttpStatus(0)));
}

#[test]
fn excerpt_of_short_body_is_whole_body() {
    assert_eq!(response_excerpt("not json"), Some("not json"));
    assert_eq!(response_excerpt(""), Some(""));
}

#[test]
fn excerpt_of_long_body_is_cut() {
    let body = "x".repeat(600);
    let excerpt = response_excerpt(&body).unwrap();
    assert_eq!(excerpt.len(), EXCERPT_LIMIT);
    assert_eq!(excerpt, &body[..500]);
    let exact = "y".repeat(500);
    assert_eq!(response_excerpt(&exact), Some(exact.as_str()));
}

#[test]
fn excerpt_inside_a_character_is_none() {
    // 499 ASCII bytes, then a two-byte character across byte 500.
    let body = format!("{}é tail", "a".repeat(499));
    assert_eq!(response_excerpt(&body), None);
    // Ending just before the character is fine.
    let body = format!("{}é tail", "a".repeat(498));
    assert_eq!(response_excerpt(&body).unwrap().len(), 500);
}
