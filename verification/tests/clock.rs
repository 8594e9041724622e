use meta_mystia_network::clock::{round_trip_ms, timestamp_ms, Clock};

#[test]
fn timestamps_are_cut_to_their_width() {
    assert_eq!(timestamp_ms(Some(5)), 5);
    assert_eq!(timestamp_ms(Some((1 << 64) + 7)), 7);
    assert_eq!(timestamp_ms(None), 0);
}

#[test]
fn round_trips() {
    assert_eq!(round_trip_ms(150, 100), 50);
    assert_eq!(round_trip_ms(100, 150), 0);
    assert_eq!(round_trip_ms((1 << 32) + 3, 0), 3);
}

#[test]
fn the_clock_does_not_run_backwards() {
    let clock = Clock::new();
    let mut last = clock.now();
    for _ in 0..1000 {
        let now = clock.now();
        assert!(now >= last);
        last = now;
    }
}
