use watts_sync::activity::Activity;
use watts_sync::activity::ActivityStreams;
use watts_sync::index::ActivityIndex;
use watts_sync::sync::StreamsOutcome;
use watts_sync::sync::SyncConfig;
use watts_sync::sync::SyncSession;

fn act(id: i64, sport: &str, date: &str) -> Activity {
    Activity {
        id,
        name: format!("activity {}", id),
        distance: "25012.5".to_string(),
        moving_time: 3600,
        elapsed_time: 3650,
        total_elevation_gain: "212.0".to_string(),
        activity_type: sport.to_string(),
        sport_type: sport.to_string(),
        start_date: date.to_string(),
        start_date_local: date.to_string(),
        timezone: "(GMT+00:00) UTC".to_string(),
        trainer: true,
        commute: false,
        average_speed: "8.4".to_string(),
        max_speed: "13.1".to_string(),
        average_watts: Some("183.5".to_string()),
        weighted_average_watts: Some("190.0".to_string()),
        max_watts: Some("450.0".to_string()),
        kilojoules: Some("660.6".to_string()),
        device_watts: Some(true),
        has_heartrate: true,
        average_heartrate: Some("142.2".to_string()),
        max_heartrate: Some("171.0".to_string()),
        average_cadence: Some("88.1".to_string()),
        suffer_score: Some("55.0".to_string()),
        kudos_count: 3,
        achievement_count: 1,
        pr_count: 0,
    }
}

fn empty_streams() -> ActivityStreams {
    ActivityStreams {
        time: Some(vec![0, 1, 2]),
        watts: None,
        heartrate: None,
        cadence: None,
        velocity_smooth: None,
        altitude: None,
    }
}

#[test]
fn first_run_collects_three_virtual_rides() {
    let mut s = SyncSession::start(ActivityIndex::new(), SyncConfig::standard());
    assert_eq!(s.wants_page(), Some(1));
    let page = vec![
        act(105, "VirtualRide", "2024-05-05T10:00:00Z"),
        act(104, "Ride", "2024-05-04T10:00:00Z"),
        act(103, "VirtualRide", "2024-05-03T10:00:00Z"),
        act(102, "Run", "2024-05-02T10:00:00Z"),
        act(101, "VirtualRide", "2024-05-01T10:00:00Z"),
    ];
    s.on_page(page);
    assert_eq!(s.pending_candidates(), 3);
    assert_eq!(s.wants_page(), Some(2));
    s.on_page(vec![]);
    assert_eq!(s.wants_page(), None);
    assert_eq!(s.total_fetched, 5);
    let mut records = 0;
    while s.pending_candidates() > 0 {
        let rec = s.enrich_with(StreamsOutcome::Fetched(empty_streams()));
        assert!(rec.streams.is_some());
        records += 1;
    }
    assert_eq!(records, 3);
    let ix = s.finish();
    assert_eq!(ix.activities.len(), 3);
    let ids: Vec<i64> = ix.activities.iter().map(|a| a.id).collect();
    assert_eq!(ids, vec![105, 103, 101]);
}

#[test]
fn scan_stops_at_first_known_id() {
    let mut ix = ActivityIndex::new();
    ix.add_activity(&act(100, "VirtualRide", "2024-04-30T09:00:00Z"));
    let mut s = SyncSession::start(ix, SyncConfig::standard());
    let page = vec![
        act(105, "VirtualRide", "2024-05-05T10:00:00Z"),
        act(104, "VirtualRide", "2024-05-04T10:00:00Z"),
        act(100, "VirtualRide", "2024-04-30T09:00:00Z"),
        act(99, "VirtualRide", "2024-04-29T09:00:00Z"),
    ];
    s.on_page(page);
    // scanning halted at id 100: 99 matches the filter but is never taken
    assert_eq!(s.pending_candidates(), 2);
    assert_eq!(s.wants_page(), None);
    assert_eq!(s.peek_candidate_id(), 105);
    let first = s.enrich_with(StreamsOutcome::Fetched(empty_streams()));
    assert_eq!(first.activity.id, 105);
    assert_eq!(s.peek_candidate_id(), 104);
    let second = s.enrich_with(StreamsOutcome::Fetched(empty_streams()));
    assert_eq!(second.activity.id, 104);
    let ix = s.finish();
    let ids: Vec<i64> = ix.activities.iter().map(|a| a.id).collect();
    assert_eq!(ids, vec![105, 104, 100]);
}

#[test]
fn page_limit_stops_after_five_pages() {
    let mut s = SyncSession::start(ActivityIndex::new(), SyncConfig::standard());
    let dates = [
        "2024-05-05T10:00:00Z",
        "2024-05-04T10:00:00Z",
        "2024-05-03T10:00:00Z",
        "2024-05-02T10:00:00Z",
        "2024-05-01T10:00:00Z",
    ];
    for p in 0..5u32 {
        assert_eq!(s.wants_page(), Some(p + 1));
        s.on_page(vec![act(50 - p as i64 * 10, "VirtualRide", dates[p as usize])]);
    }
    // the cap is reached: no sixth page is ever requested
    assert_eq!(s.wants_page(), None);
    assert_eq!(s.pending_candidates(), 5);
    let mut enriched = Vec::new();
    while s.pending_candidates() > 0 {
        enriched.push(s.enrich_with(StreamsOutcome::Fetched(empty_streams())).activity.id);
    }
    assert_eq!(enriched, vec![50, 40, 30, 20, 10]);
    let ix = s.finish();
    assert_eq!(ix.activities.len(), 5);
}

#[test]
fn streams_failure_keeps_activity_without_streams() {
    let mut s = SyncSession::start(ActivityIndex::new(), SyncConfig::standard());
    s.on_page(vec![act(7, "VirtualRide", "2024-05-05T10:00:00Z")]);
    s.on_page(vec![]);
    let rec = s.enrich_with(StreamsOutcome::Failed);
    assert!(rec.streams.is_none());
    assert_eq!(rec.activity.id, 7);
    let ix = s.finish();
    assert_eq!(ix.activities.len(), 1);
    assert_eq!(ix.activities[0].id, 7);
}

#[test]
fn rerun_with_no_new_activities_changes_only_the_stamp() {
    let remote = || {
        vec![
            act(12, "VirtualRide", "2024-05-05T10:00:00Z"),
            act(11, "VirtualRide", "2024-05-04T10:00:00Z"),
        ]
    };
    let mut s = SyncSession::start(ActivityIndex::new(), SyncConfig::standard());
    s.on_page(remote());
    s.on_page(vec![]);
    while s.pending_candidates() > 0 {
        s.enrich_with(StreamsOutcome::Fetched(empty_streams()));
    }
    let ix1 = s.finish();
    let snap1: Vec<(i64, String, String)> = ix1
        .activities
        .iter()
        .map(|a| (a.id, a.name.clone(), a.start_date.clone()))
        .collect();

    let mut s2 = SyncSession::start(ix1, SyncConfig::standard());
    s2.on_page(remote());
    assert_eq!(s2.pending_candidates(), 0);
    assert_eq!(s2.wants_page(), None);
    let ix2 = s2.finish();
    let snap2: Vec<(i64, String, String)> = ix2
        .activities
        .iter()
        .map(|a| (a.id, a.name.clone(), a.start_date.clone()))
        .collect();
    assert_eq!(snap1, snap2);
}

#[test]
fn empty_first_page_ends_the_run_cleanly() {
    let mut s = SyncSession::start(ActivityIndex::new(), SyncConfig::standard());
    s.on_page(vec![]);
    assert_eq!(s.wants_page(), None);
    assert_eq!(s.pending_candidates(), 0);
    let ix = s.finish();
    assert_eq!(ix.activities.len(), 0);
}

#[test]
fn register_existing_repairs_the_index_without_a_record() {
    let mut s = SyncSession::start(ActivityIndex::new(), SyncConfig::standard());
    s.on_page(vec![act(21, "VirtualRide", "2024-05-05T10:00:00Z")]);
    s.on_page(vec![]);
    s.register_existing();
    assert_eq!(s.pending_candidates(), 0);
    let ix = s.finish();
    assert_eq!(ix.activities.len(), 1);
    assert_eq!(ix.activities[0].id, 21);
}
