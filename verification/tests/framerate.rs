use tic_tac_toe::engine::framerate::FrameRate;

#[test]
fn a_fast_tick_sleeps_for_the_rest_of_its_period() {
    assert_eq!(FrameRate::cap(60, 5), 11);
    assert_eq!(FrameRate::cap(60, 0), 16);
    assert_eq!(FrameRate::cap(60, 15), 1);
}

#[test]
fn a_slow_tick_does_not_sleep() {
    assert_eq!(FrameRate::cap(60, 16), 0);
    assert_eq!(FrameRate::cap(60, 17), 0);
    assert_eq!(FrameRate::cap(60, u128::MAX), 0);
}

#[test]
fn the_period_is_the_whole_milliseconds_of_a_tick() {
    assert_eq!(FrameRate::cap(1, 0), 1000);
    assert_eq!(FrameRate::cap(3, 0), 333);
    assert_eq!(FrameRate::cap(1000, 0), 1);
    assert_eq!(FrameRate::cap(1001, 0), 0);
    assert_eq!(FrameRate::cap(u64::MAX, 0), 0);
}

#[test]
fn a_rate_of_zero_pauses_without_end() {
    assert_eq!(FrameRate::cap(0, 0), u64::MAX);
    assert_eq!(FrameRate::cap(0, 5000), u64::MAX);
}
