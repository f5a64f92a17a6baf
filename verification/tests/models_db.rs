use std::collections::HashMap;

use tempuspoints_poller::db::{map_row, record_rows, user_rows, RecordRow};
use tempuspoints_poller::models::{
    Author, DemoInfo, MapDetails, PlayerInfo, RatingInfo, Record, Records, ServerInfo, TierInfo,
    Videos,
};

fn record(id: i32, user_id: i32, class: i8, duration: f64, name: &str) -> Record {
    Record {
        id,
        zone_id: 1681,
        duration_bits: duration.to_bits(),
        class,
        date_bits: 1_700_000_000.5f64.to_bits(),
        demo_info: DemoInfo {
            id: 3043671,
            start_tick: 398767,
            end_tick: 414029,
            url: None,
            server_info: ServerInfo { id: 66, name: Some("jump.tf (Frankfurt) Rank 100 Only".to_string()) },
        },
        user_id,
        name: name.to_string(),
        steamid: format!("STEAM_0:0:{user_id}"),
        rank: 1,
        placement: 1,
        player_info: PlayerInfo { id: user_id, steamid: format!("STEAM_0:0:{user_id}"), name: name.to_string() },
    }
}

fn jump_a_b3() -> MapDetails {
    let mut zone_counts = HashMap::new();
    zone_counts.insert("checkpoint".to_string(), 4);
    zone_counts.insert("bonus".to_string(), 4);
    MapDetails {
        id: 750,
        name: "jump_a_b3".to_string(),
        zone_counts,
        authors: vec![Author { name: "Waldo".to_string(), id: 1619776, map_id: 750 }],
        tier_info: TierInfo { soldier: 6, demoman: 3 },
        rating_info: RatingInfo { soldier: 1, demoman: -2 },
        videos: Videos { soldier: None, demoman: Some("_rXKkSELjHo".to_string()) },
    }
}

#[test]
fn all_records_soldier_first() {
    let records = Records {
        soldier: vec![record(1, 10, 3, 10.0, "a"), record(2, 11, 3, 11.0, "b")],
        demoman: vec![record(3, 12, 4, 12.0, "c")],
    };
    let ids: Vec<i32> = records.into_all().iter().map(|r| r.id).collect();
    assert_eq!(ids, vec![1, 2, 3]);
}

#[test]
fn all_records_of_empty_lists() {
    let records = Records { soldier: vec![], demoman: vec![record(3, 12, 4, 12.0, "c")] };
    assert_eq!(records.into_all().len(), 1);
    let records = Records { soldier: vec![], demoman: vec![] };
    assert!(records.into_all().is_empty());
}

#[test]
fn map_row_copies_columns() {
    let map = jump_a_b3();
    let row = map_row(&map);
    assert_eq!(row.id, 750);
    assert_eq!(row.name, "jump_a_b3");
    assert_eq!(row.tier_soldier, 6i16);
    assert_eq!(row.tier_demoman, 3i16);
    assert_eq!(row.rating_soldier, 1i16);
    assert_eq!(row.rating_demoman, -2i16);
    assert_eq!(row.zone_counts.get("checkpoint"), Some(&4));
    assert_eq!(row.zone_counts.get("bonus_end"), None);
    assert_eq!(row.authors.len(), 1);
    assert_eq!(row.authors[0].name, "Waldo");
    assert_eq!(row.video_soldier, None);
    assert_eq!(row.video_demoman, Some("_rXKkSELjHo"));
}

#[test]
fn user_rows_one_per_record_in_order() {
    let records = vec![record(7466797, 39902, 3, 33.5, "On Little Cat Feet"), record(8, 5, 4, 40.0, "x")];
    let rows = user_rows(&records);
    assert_eq!(rows.len(), 2);
    assert_eq!(rows[0].id, 39902);
    assert_eq!(rows[0].steamid, "STEAM_0:0:39902");
    assert_eq!(rows[0].name, "On Little Cat Feet");
    assert_eq!(rows[1].id, 5);
    assert_eq!(rows[1].name, "x");
}

#[test]
fn record_rows_carry_map_and_run() {
    let records = vec![record(7466797, 39902, 3, 33.5, "a"), record(8, 5, 4, 40.25, "b")];
    let rows = record_rows(136, &records);
    assert_eq!(
        rows[0],
        RecordRow {
            id: 7466797,
            map_id: 136,
            user_id: 39902,
            class: 3,
            duration_bits: 33.5f64.to_bits(),
            date_bits: 1_700_000_000.5f64.to_bits(),
        }
    );
    assert_eq!(f64::from_bits(rows[1].duration_bits), 40.25);
    assert_eq!(rows[1].class, 4);
    assert!(record_rows(1, &[]).is_empty());
}
