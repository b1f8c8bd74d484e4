use watts_sync::activity::Activity;
use watts_sync::index::ActivityIndex;
use watts_sync::index::ActivitySummary;

fn act(id: i64, sport: &str, date: &str) -> Activity {
    Activity {
        id,
        name: format!("activity {}", id),
        distance: "1000.0".to_string(),
        moving_time: 600,
        elapsed_time: 620,
        total_elevation_gain: "5.0".to_string(),
        activity_type: sport.to_string(),
        sport_type: sport.to_string(),
        start_date: date.to_string(),
        start_date_local: date.to_string(),
        timezone: "(GMT+00:00) UTC".to_string(),
        trainer: true,
        commute: false,
        average_speed: "7.0".to_string(),
        max_speed: "11.0".to_string(),
        average_watts: Some("200.0".to_string()),
        weighted_average_watts: None,
        max_watts: None,
        kilojoules: None,
        device_watts: Some(true),
        has_heartrate: false,
        average_heartrate: None,
        max_heartrate: None,
        average_cadence: None,
        suffer_score: None,
        kudos_count: 0,
        achievement_count: 0,
        pr_count: 0,
    }
}

fn summary(id: i64, date: &str) -> ActivitySummary {
    ActivitySummary {
        id,
        name: format!("activity {}", id),
        start_date: date.to_string(),
        distance: "1000.0".to_string(),
        moving_time: 600,
        average_watts: None,
        average_heartrate: None,
    }
}

fn is_sorted_desc(ix: &ActivityIndex) -> bool {
    ix.activities.windows(2).all(|w| w[0].start_date >= w[1].start_date)
}

#[test]
fn add_activity_keeps_newest_first_order() {
    let mut ix = ActivityIndex::new();
    ix.add_activity(&act(1, "VirtualRide", "2024-03-01T08:00:00Z"));
    assert!(is_sorted_desc(&ix));
    ix.add_activity(&act(2, "VirtualRide", "2024-05-01T08:00:00Z"));
    assert!(is_sorted_desc(&ix));
    ix.add_activity(&act(3, "VirtualRide", "2024-04-01T08:00:00Z"));
    assert!(is_sorted_desc(&ix));
    ix.add_activity(&act(4, "VirtualRide", "2024-01-01T08:00:00Z"));
    assert!(is_sorted_desc(&ix));
    let ids: Vec<i64> = ix.activities.iter().map(|a| a.id).collect();
    assert_eq!(ids, vec![2, 3, 1, 4]);
}

#[test]
fn add_activity_puts_equal_dates_before_their_peers() {
    let mut ix = ActivityIndex::new();
    ix.add_activity(&act(1, "VirtualRide", "2024-03-01T08:00:00Z"));
    ix.add_activity(&act(2, "VirtualRide", "2024-03-01T08:00:00Z"));
    let ids: Vec<i64> = ix.activities.iter().map(|a| a.id).collect();
    assert_eq!(ids, vec![2, 1]);
    assert!(is_sorted_desc(&ix));
}

#[test]
fn summary_projection_copies_the_summary_fields() {
    let mut ix = ActivityIndex::new();
    let a = act(9, "VirtualRide", "2024-02-02T08:00:00Z");
    ix.add_activity(&a);
    let s = &ix.activities[0];
    assert_eq!(s.id, 9);
    assert_eq!(s.name, "activity 9");
    assert_eq!(s.start_date, "2024-02-02T08:00:00Z");
    assert_eq!(s.distance, "1000.0");
    assert_eq!(s.moving_time, 600);
    assert_eq!(s.average_watts, Some("200.0".to_string()));
    assert_eq!(s.average_heartrate, None);
}

#[test]
fn from_parts_accepts_a_sorted_ledger() {
    let parts = vec![
        summary(3, "2024-05-01T08:00:00Z"),
        summary(2, "2024-04-01T08:00:00Z"),
        summary(1, "2024-03-01T08:00:00Z"),
    ];
    let ix = ActivityIndex::from_parts("2024-05-02T00:00:00Z".to_string(), parts);
    let ix = ix.expect("a sorted ledger loads");
    assert_eq!(ix.last_updated, "2024-05-02T00:00:00Z");
    assert_eq!(ix.activities.len(), 3);
}

#[test]
fn from_parts_rejects_an_unsorted_ledger() {
    let parts = vec![
        summary(1, "2024-03-01T08:00:00Z"),
        summary(2, "2024-04-01T08:00:00Z"),
    ];
    assert!(ActivityIndex::from_parts(String::new(), parts).is_none());
}

#[test]
fn from_summaries_sorts_an_out_of_order_store_and_keeps_the_data() {
    let parts = vec![
        summary(1, "2024-03-01T08:00:00Z"),
        summary(3, "2024-05-01T08:00:00Z"),
        summary(2, "2024-04-01T08:00:00Z"),
    ];
    let ix = ActivityIndex::from_summaries("2024-05-02T00:00:00Z".to_string(), parts);
    assert_eq!(ix.last_updated, "2024-05-02T00:00:00Z");
    let ids: Vec<i64> = ix.activities.iter().map(|a| a.id).collect();
    assert_eq!(ids, vec![3, 2, 1]);
    assert!(is_sorted_desc(&ix));
}

#[test]
fn from_summaries_keeps_an_ordered_store_unchanged() {
    let parts = vec![
        summary(3, "2024-05-01T08:00:00Z"),
        summary(4, "2024-04-01T08:00:00Z"),
        summary(2, "2024-04-01T08:00:00Z"),
        summary(1, "2024-03-01T08:00:00Z"),
    ];
    let ix = ActivityIndex::from_summaries(String::new(), parts);
    let ids: Vec<i64> = ix.activities.iter().map(|a| a.id).collect();
    // equal start dates keep their stored order
    assert_eq!(ids, vec![3, 4, 2, 1]);
}

#[test]
fn set_stamp_writes_exactly_the_given_stamp() {
    let mut ix = ActivityIndex::new();
    ix.add_activity(&act(5, "VirtualRide", "2024-02-02T08:00:00Z"));
    ix.set_stamp("2024-06-01T12:00:00Z".to_string());
    assert_eq!(ix.last_updated, "2024-06-01T12:00:00Z");
    assert_eq!(ix.activities.len(), 1);
}

#[test]
fn new_ledger_is_empty() {
    let ix = ActivityIndex::new();
    assert_eq!(ix.activities.len(), 0);
    assert_eq!(ix.last_updated, "");
}
