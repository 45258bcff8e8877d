//! Plain data records mirroring upstream payloads.
//!
//! These carry no protocol logic of their own; they are the structured
//! values that decoded payloads populate. Identifier fields use 64 bits
//! throughout, the safe width across API generations.

use vstd::prelude::*;

pub mod assets;

verus! {

#[derive(Debug, Clone, PartialEq, Eq)]
pub struct CarType {
    pub car_type: String,
}

#[derive(Debug, Clone, PartialEq, Eq)]
pub struct Package {
    pub package_id: i64,
    pub content_ids: Vec<i64>,
}

#[derive(Debug, Clone, PartialEq, Eq)]
pub struct Helmet {
    pub pattern: i64,
    pub color1: String,
    pub color2: String,
    pub color3: String,
    pub face_type: i64,
    pub helmet_type: i64,
}

/// Account standing details such as bans or chat restrictions; the
/// upstream payload carries none that this client reads.
#[derive(Debug, Clone, PartialEq, Eq)]
pub struct Restrictions {}

#[derive(Debug, Clone, PartialEq, Eq)]
pub struct Suit {
    pub pattern: i64,
    pub color1: String,
    pub color2: String,
    pub color3: String,
    pub body_type: i64,
}

#[derive(Debug, Clone, Copy, PartialEq, Eq, Structural)]
pub enum Category {
    DirtOval,
    DirtRoad,
    Oval,
    Road,
}

#[derive(Debug, Clone, Copy, PartialEq, Eq, Structural)]
pub struct TrackType {
    pub track_type: Category,
}

#[derive(Debug, Clone, PartialEq, Eq)]
pub struct ScheduleTrack {
    pub track_id: i64,
    pub track_name: String,
    pub config_name: Option<String>,
}

} // verus!
