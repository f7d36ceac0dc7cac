use rwm::sequence::IgnoredSequences;

#[test]
fn recorded_sequence_is_filtered_exactly_once() {
    let mut s = IgnoredSequences::new();
    s.record(42);
    assert!(s.should_ignore(42));
    assert_eq!(s.len(), 0);
    assert!(!s.should_ignore(42));
}

#[test]
fn unrecorded_sequence_is_not_filtered() {
    let mut s = IgnoredSequences::new();
    s.record(100);
    assert!(!s.should_ignore(99));
    assert_eq!(s.len(), 1);
    assert!(s.should_ignore(100));
}

#[test]
fn sequences_behind_the_observed_one_are_dropped() {
    let mut s = IgnoredSequences::new();
    s.record(5);
    s.record(7);
    s.record(20);
    assert!(!s.should_ignore(10));
    // 5 and 7 lie behind 10 and went; 20 is still ahead.
    assert_eq!(s.len(), 1);
    assert!(s.should_ignore(20));
    assert_eq!(s.len(), 0);
}

#[test]
fn sequences_are_compared_across_wraparound() {
    let mut s = IgnoredSequences::new();
    s.record(65530);
    s.record(3);
    // 65530 lies just behind 2 once the space wraps; 3 lies just ahead.
    assert!(!s.should_ignore(2));
    assert_eq!(s.len(), 1);
    assert!(s.should_ignore(3));
}

#[test]
fn a_sequence_recorded_twice_is_filtered_once() {
    let mut s = IgnoredSequences::new();
    s.record(8);
    s.record(8);
    assert!(s.should_ignore(8));
    assert_eq!(s.len(), 0);
    assert!(!s.should_ignore(8));
}

#[test]
fn suppression_set_does_not_grow_without_bound() {
    let mut s = IgnoredSequences::new();
    for i in 0..1000u16 {
        s.record(i);
    }
    assert!(!s.should_ignore(20000));
    assert_eq!(s.len(), 0);
}
