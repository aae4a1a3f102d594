use robot_detect::view::{shows_distance, DetectionMemory, ImageClock, Timestamp};

#[test]
fn fresh_detections_replace_the_drawn_ones() {
    let mut memory = DetectionMemory::new();
    assert!(memory.objects().is_empty());
    memory.refresh(vec![1, 2]);
    assert_eq!(memory.objects(), &vec![1, 2]);
    memory.refresh(vec![3]);
    assert_eq!(memory.objects(), &vec![3]);
}

#[test]
fn an_empty_batch_keeps_the_drawn_ones() {
    let mut memory = DetectionMemory::new();
    memory.refresh(vec!["cone"]);
    memory.refresh(Vec::new());
    memory.refresh(Vec::new());
    assert_eq!(memory.objects(), &vec!["cone"]);
}

#[test]
fn only_pylons_show_a_distance() {
    assert!(shows_distance(&"pylon".to_string()));
    assert!(!shows_distance(&"person".to_string()));
    assert!(!shows_distance(&"Pylon".to_string()));
    assert!(!shows_distance(&"pylons".to_string()));
    assert!(!shows_distance(&String::new()));
}

#[test]
fn a_newer_frame_is_loaded_once() {
    let mut clock = ImageClock::new();
    let t = Timestamp { secs: 100, nanos: 5 };
    assert!(clock.needs_reload(t));
    clock.record_load(t);
    assert_eq!(clock.last_update_time(), t);
    assert!(!clock.needs_reload(t));
    assert!(clock.needs_reload(Timestamp { secs: 100, nanos: 6 }));
    assert!(clock.needs_reload(Timestamp { secs: 101, nanos: 0 }));
    assert!(!clock.needs_reload(Timestamp { secs: 99, nanos: 999_999_999 }));
}

#[test]
fn a_file_at_the_epoch_is_not_loaded() {
    let clock = ImageClock::new();
    assert!(!clock.needs_reload(Timestamp::epoch()));
    assert!(clock.needs_reload(Timestamp { secs: 0, nanos: 1 }));
}

#[test]
fn later_compares_seconds_then_nanoseconds() {
    let a = Timestamp { secs: 2, nanos: 0 };
    let b = Timestamp { secs: 1, nanos: 999 };
    assert!(a.is_later_than(&b));
    assert!(!b.is_later_than(&a));
    assert!(!a.is_later_than(&a));
}
