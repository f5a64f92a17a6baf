//! The data that the Tempus API hands out, as the library holds it.

use std::collections::HashMap;
use vstd::prelude::*;

verus! {

/// An item returned by /maps/detailedList.
#[derive(Debug, Clone)]
pub struct MapDetails {
    pub id: i32,
    pub name: String,
    /// How many zones of each kind ("checkpoint", "bonus", ...) the map has.
    pub zone_counts: HashMap<String, i32>,
    pub authors: Vec<Author>,
    pub tier_info: TierInfo,
    pub rating_info: RatingInfo,
    pub videos: Videos,
}

#[derive(Debug, Clone)]
pub struct Author {
    pub name: String,
    pub id: i32,
    pub map_id: i32,
}

/// Difficulty tier of a map for each class.
#[derive(Debug, Clone, Copy, PartialEq, Eq)]
pub struct TierInfo {
    pub soldier: i8,
    pub demoman: i8,
}

/// Rating of a map for each class.
#[derive(Debug, Clone, Copy, PartialEq, Eq)]
pub struct RatingInfo {
    pub soldier: i8,
    pub demoman: i8,
}

/// Showcase video ids of a map for each class.
#[derive(Debug, Clone)]
pub struct Videos {
    pub soldier: Option<String>,
    pub demoman: Option<String>,
}


/// The record list of a map's main zone, as returned by
/// /maps/id/{id}/zones/typeindex/map/1/records/list.
#[derive(Debug, Clone)]
pub struct MapRecordsList {
    pub zone_info: ZoneInfo,
    pub tier_info: TierInfo,
    pub rating_info: RatingInfo,
    pub completion_info: CompletionInfo,
    pub records: Records,
}

#[derive(Debug, Clone)]
pub struct ZoneInfo {
    pub id: i32,
    pub map_id: i32,
    pub zoneindex: i32,
    pub custom_name: Option<String>,
    /// The zone's type ("map", "bonus", ...).
    pub kind: String,
}

/// How many players completed the zone with each class.
#[derive(Debug, Clone, Copy, PartialEq, Eq)]
pub struct CompletionInfo {
    pub soldier: i32,
    pub demoman: i32,
}

/// The records of a zone, one list per class, each in the order the API gave.
#[derive(Debug, Clone)]
pub struct Records {
    pub soldier: Vec<Record>,
    pub demoman: Vec<Record>,
}

/// One player's best run on a zone with one class.
///
/// The run's duration and date are seconds as IEEE-754 doubles; the library
/// carries them as their bit patterns, which it neither reads nor changes.
#[derive(Debug, Clone)]
pub struct Record {
    pub id: i32,
    pub zone_id: i32,
    /// Bit pattern (`f64::to_bits`) of the run's duration in seconds.
    pub duration_bits: u64,
    pub class: i8,
    /// Bit pattern (`f64::to_bits`) of the run's date, seconds since the Unix epoch.
    pub date_bits: u64,
    pub demo_info: DemoInfo,
    pub user_id: i32,
    pub name: String,
    pub steamid: String,
    pub rank: i32,
    pub placement: i32,
    pub player_info: PlayerInfo,
}

#[derive(Debug, Clone)]
pub struct DemoInfo {
    pub id: i32,
    pub start_tick: i32,
    pub end_tick: i32,
    pub url: Option<String>,
    pub server_info: ServerInfo,
}

#[derive(Debug, Clone)]
pub struct ServerInfo {
    pub id: i32,
    pub name: Option<String>,
}

#[derive(Debug, Clone)]
pub struct PlayerInfo {
    pub id: i32,
    pub steamid: String,
    pub name: String,
}

impl Records {
    /// All records of the zone: the soldier records, then the demoman
    /// records, each list in its own order.
    pub fn into_all(self) -> (all: Vec<Record>)
        ensures
            all@ == self.soldier@ + self.demoman@,
    {
        let Records { soldier, demoman } = self;
        let mut all = soldier;
        let mut rest = demoman;
        all.append(&mut rest);
        all
    }
}

} // verus!
