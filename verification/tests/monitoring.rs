use fvrs_core::monitor::{
    map_event_kind, FsEvent, FsEventType, MonitoringFilter, MonitoringHistory,
    MonitoringSettings, RawEventKind, WatchSession,
};

fn event(kind: FsEventType, path: &str, timestamp: u64) -> FsEvent {
    FsEvent { event_type: kind, path: path.to_string(), timestamp, metadata: Vec::new() }
}

fn permissive_filter() -> MonitoringFilter {
    MonitoringFilter {
        include_patterns: Vec::new(),
        exclude_patterns: Vec::new(),
        event_types: vec![
            FsEventType::Create,
            FsEventType::Modify,
            FsEventType::Remove,
            FsEventType::Rename,
            FsEventType::Access,
            FsEventType::Metadata,
        ],
        min_size: None,
        max_size: None,
        extensions: Vec::new(),
    }
}

fn settings(debounce_ms: u64, max_history: usize, filter: MonitoringFilter) -> MonitoringSettings {
    MonitoringSettings {
        path: "watched".to_string(),
        recursive: true,
        filter,
        max_history,
        debounce_ms,
    }
}

#[test]
fn filter_extension_allow_list() {
    let mut f = MonitoringFilter::new();
    f.extensions = vec!["txt".to_string()];
    assert!(!f.matches("x.log"));
    assert!(f.matches("x.txt"));
}

#[test]
fn filter_empty_accepts_everything() {
    let f = MonitoringFilter::new();
    assert!(f.matches("anything/at/all.xyz"));
    assert!(f.matches("no_extension"));
}

#[test]
fn filter_path_without_extension_passes_allow_list() {
    let mut f = MonitoringFilter::new();
    f.extensions = vec!["txt".to_string()];
    assert!(f.matches("makefile_without_extension"));
}

#[test]
fn filter_include_patterns_require_one_match() {
    let mut f = MonitoringFilter::new();
    f.include_patterns = vec!["*.log".to_string()];
    assert!(f.matches("server.log"));
    assert!(!f.matches("server.txt"));
}

#[test]
fn filter_exclude_pattern_rejects() {
    let mut f = MonitoringFilter::new();
    f.exclude_patterns = vec!["*.tmp".to_string()];
    assert!(!f.matches("scratch.tmp"));
    assert!(f.matches("scratch.txt"));
}

#[test]
fn raw_kinds_map_to_event_kinds() {
    assert_eq!(map_event_kind(RawEventKind::Create), FsEventType::Create);
    assert_eq!(map_event_kind(RawEventKind::Modify), FsEventType::Modify);
    assert_eq!(map_event_kind(RawEventKind::ModifyName), FsEventType::Rename);
    assert_eq!(map_event_kind(RawEventKind::Remove), FsEventType::Remove);
    assert_eq!(map_event_kind(RawEventKind::Access), FsEventType::Access);
    assert_eq!(map_event_kind(RawEventKind::Other), FsEventType::Metadata);
}

#[test]
fn history_capacity_two_keeps_last_two() {
    let mut h = MonitoringHistory::new(2);
    h.add_event(event(FsEventType::Create, "e1", 1));
    h.add_event(event(FsEventType::Create, "e2", 2));
    h.add_event(event(FsEventType::Create, "e3", 3));
    assert_eq!(h.events.len(), 2);
    assert_eq!(h.events[0].path, "e2");
    assert_eq!(h.events[1].path, "e3");
}

#[test]
fn history_keeps_insertion_order_below_capacity() {
    let mut h = MonitoringHistory::new(10);
    h.add_event(event(FsEventType::Create, "a", 1));
    h.add_event(event(FsEventType::Modify, "b", 2));
    assert_eq!(h.events.len(), 2);
    assert_eq!(h.events[0].path, "a");
    assert_eq!(h.events[1].path, "b");
}

#[test]
fn history_restore_applies_the_bound() {
    let events = vec![
        event(FsEventType::Create, "e1", 1),
        event(FsEventType::Create, "e2", 2),
        event(FsEventType::Create, "e3", 3),
    ];
    let h = MonitoringHistory::from_events(&events, 2);
    assert_eq!(h.events.len(), 2);
    assert_eq!(h.events[0].path, "e2");
    assert_eq!(h.events[1].path, "e3");
}

#[test]
fn history_filters_by_time_range() {
    let mut h = MonitoringHistory::new(10);
    h.add_event(event(FsEventType::Create, "a", 100));
    h.add_event(event(FsEventType::Create, "b", 200));
    h.add_event(event(FsEventType::Create, "c", 300));
    let r = h.get_events_in_range(150, 250);
    assert_eq!(r.len(), 1);
    assert_eq!(r[0].path, "b");
}

#[test]
fn history_filters_by_kind() {
    let mut h = MonitoringHistory::new(10);
    h.add_event(event(FsEventType::Create, "a", 1));
    h.add_event(event(FsEventType::Modify, "b", 2));
    h.add_event(event(FsEventType::Create, "c", 3));
    let r = h.get_events_by_type(&FsEventType::Create);
    assert_eq!(r.len(), 2);
    assert_eq!(r[0].path, "a");
    assert_eq!(r[1].path, "c");
}

#[test]
fn debounce_drops_rapid_repeat() {
    let mut s = WatchSession::new(settings(100, 10, permissive_filter()));
    assert!(s.observe(RawEventKind::Modify, "f.txt".to_string(), None, 1000));
    assert!(!s.observe(RawEventKind::Modify, "f.txt".to_string(), None, 1010));
    assert_eq!(s.history.events.len(), 1);
}

#[test]
fn debounce_accepts_spaced_repeats() {
    let mut s = WatchSession::new(settings(100, 10, permissive_filter()));
    assert!(s.observe(RawEventKind::Modify, "f.txt".to_string(), None, 1000));
    assert!(s.observe(RawEventKind::Modify, "f.txt".to_string(), None, 1150));
    assert_eq!(s.history.events.len(), 2);
}

#[test]
fn debounce_tracks_paths_independently() {
    let mut s = WatchSession::new(settings(100, 10, permissive_filter()));
    assert!(s.observe(RawEventKind::Modify, "a.txt".to_string(), None, 1000));
    assert!(s.observe(RawEventKind::Modify, "b.txt".to_string(), None, 1010));
    assert!(!s.observe(RawEventKind::Modify, "a.txt".to_string(), None, 1020));
}

#[test]
fn observe_rejects_unlisted_kind() {
    let mut filter = permissive_filter();
    filter.event_types = vec![FsEventType::Create];
    let mut s = WatchSession::new(settings(0, 10, filter));
    assert!(!s.observe(RawEventKind::Modify, "f.txt".to_string(), None, 1000));
    assert!(s.observe(RawEventKind::Create, "f.txt".to_string(), None, 1000));
}

#[test]
fn observe_applies_size_bounds() {
    let mut filter = permissive_filter();
    filter.min_size = Some(10);
    filter.max_size = Some(100);
    let mut s = WatchSession::new(settings(0, 10, filter));
    assert!(!s.observe(RawEventKind::Modify, "small".to_string(), Some(5), 1));
    assert!(!s.observe(RawEventKind::Modify, "large".to_string(), Some(500), 2));
    assert!(s.observe(RawEventKind::Modify, "fits".to_string(), Some(50), 3));
    assert!(s.observe(RawEventKind::Modify, "unknown_size".to_string(), None, 4));
}

#[test]
fn observe_applies_path_filter() {
    let mut filter = permissive_filter();
    filter.exclude_patterns = vec!["*.tmp".to_string()];
    let mut s = WatchSession::new(settings(0, 10, filter));
    assert!(!s.observe(RawEventKind::Create, "x.tmp".to_string(), None, 1));
    assert!(s.observe(RawEventKind::Create, "x.txt".to_string(), None, 1));
}

#[test]
fn observe_maps_unknown_kind_to_metadata() {
    let mut s = WatchSession::new(settings(0, 10, permissive_filter()));
    assert!(s.observe(RawEventKind::Other, "f".to_string(), None, 7));
    assert_eq!(s.history.events[0].event_type, FsEventType::Metadata);
    assert_eq!(s.history.events[0].timestamp, 7);
}

#[test]
fn next_event_drains_in_order() {
    let mut s = WatchSession::new(settings(0, 10, permissive_filter()));
    assert!(s.observe(RawEventKind::Create, "first".to_string(), None, 1));
    assert!(s.observe(RawEventKind::Create, "second".to_string(), None, 2));
    let a = s.next_event().unwrap();
    let b = s.next_event().unwrap();
    assert_eq!(a.path, "first");
    assert_eq!(b.path, "second");
    assert!(s.next_event().is_none());
}

#[test]
fn history_bound_holds_while_watching() {
    let mut s = WatchSession::new(settings(0, 2, permissive_filter()));
    assert!(s.observe(RawEventKind::Create, "e1".to_string(), None, 1));
    assert!(s.observe(RawEventKind::Create, "e2".to_string(), None, 2));
    assert!(s.observe(RawEventKind::Create, "e3".to_string(), None, 3));
    assert_eq!(s.history.events.len(), 2);
    assert_eq!(s.history.events[0].path, "e2");
    assert_eq!(s.history.events[1].path, "e3");
}
