use vstd::prelude::*;

verus! {

use vstd::string::StringExecFns;

/// One recorded exercise session, as the remote platform lists it. The
/// identifier is assigned remotely, unique, and immutable: it is the
/// natural key across every store.
///
/// Fractional measurements (distance, elevation, speeds, power, energy,
/// heart rate, cadence, suffer score) are carried opaquely as the decimal
/// text the remote sent. The sync logic never interprets them: it only
/// copies them into summaries and persisted records.
pub struct Activity {
    pub id: i64,
    pub name: String,
    pub distance: String,
    pub moving_time: i32,
    pub elapsed_time: i32,
    pub total_elevation_gain: String,
    pub activity_type: String,
    pub sport_type: String,
    pub start_date: String,
    pub start_date_local: String,
    pub timezone: String,
    pub trainer: bool,
    pub commute: bool,
    pub average_speed: String,
    pub max_speed: String,
    pub average_watts: Option<String>,
    pub weighted_average_watts: Option<String>,
    pub max_watts: Option<String>,
    pub kilojoules: Option<String>,
    pub device_watts: Option<bool>,
    pub has_heartrate: bool,
    pub average_heartrate: Option<String>,
    pub max_heartrate: Option<String>,
    pub average_cadence: Option<String>,
    pub suffer_score: Option<String>,
    pub kudos_count: i32,
    pub achievement_count: i32,
    pub pr_count: i32,
}

/// Optional per-sample sensor series for one activity. Each of the six
/// series is independently present or absent (devices differ in sensors),
/// and present series need not have equal lengths. Fractional series
/// (watts, smoothed velocity, altitude) carry their samples opaquely as
/// decimal text, as the fractional fields of `Activity` do.
pub struct ActivityStreams {
    pub time: Option<Vec<i32>>,
    pub watts: Option<Vec<String>>,
    pub heartrate: Option<Vec<i32>>,
    pub cadence: Option<Vec<i32>>,
    pub velocity_smooth: Option<Vec<String>>,
    pub altitude: Option<Vec<String>>,
}

/// An activity merged with its optional stream data: the unit of
/// per-activity persistence. Written once and never updated.
pub struct ActivityWithStreams {
    pub activity: Activity,
    pub streams: Option<ActivityStreams>,
}

/// The sport-type classification this system treats as in scope: indoor
/// simulated cycling.
pub open spec fn virtual_ride() -> Seq<char> {
    "VirtualRide"@
}

/// Whether an activity's sport type matches the target filter.
pub open spec fn spec_is_virtual_ride(a: Activity) -> bool {
    a.sport_type@ == virtual_ride()
}

/// Executable test for the target filter.
pub fn is_virtual_ride(a: &Activity) -> (r: bool)
    ensures
        r == spec_is_virtual_ride(*a),
{
    let target = String::from_str("VirtualRide");
    a.sport_type.eq(&target)
}

} // verus!
