use stardust::clock::SampleClock;

#[test]
fn clock_wraps_at_sample_rate() {
    let mut clock = SampleClock::new(3).unwrap();
    assert_eq!(clock.position(), 0);
    clock.advance();
    assert_eq!(clock.position(), 1);
    clock.advance();
    assert_eq!(clock.position(), 2);
    clock.advance();
    assert_eq!(clock.position(), 0);
    assert_eq!(clock.sample_rate(), 3);
}

#[test]
fn clock_needs_a_sample_rate() {
    assert!(SampleClock::new(0).is_none());
}
