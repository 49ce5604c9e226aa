use wobl::FramePacer;

#[test]
fn ten_frames_per_second_waits_out_a_tenth_of_a_second() {
    let mut p = FramePacer::new(1_000);
    p.set_fps(Some(10));
    assert_eq!(p.target(), Some(100));
    assert_eq!(p.delay(1_030), 70);
    assert_eq!(p.delay(1_150), 0);
    assert_eq!(p.delay(1_100), 0);
    assert_eq!(p.delay(1_099), 1);
    assert_eq!(p.delay(1_000), 100);
}

#[test]
fn no_rate_never_waits() {
    let mut p = FramePacer::new(5);
    assert_eq!(p.target(), None);
    assert_eq!(p.delay(5), 0);
    assert_eq!(p.delay(6), 0);
    p.set_fps(Some(10));
    p.set_fps(None);
    assert_eq!(p.target(), None);
    assert_eq!(p.delay(5), 0);
}

#[test]
fn interval_is_rounded_down() {
    let mut p = FramePacer::new(0);
    p.set_fps(Some(60));
    assert_eq!(p.target(), Some(16));
    p.set_fps(Some(30));
    assert_eq!(p.target(), Some(33));
    p.set_fps(Some(1));
    assert_eq!(p.target(), Some(1000));
    p.set_fps(Some(1000));
    assert_eq!(p.target(), Some(1));
    p.set_fps(Some(1001));
    assert_eq!(p.target(), Some(0));
    assert_eq!(p.delay(0), 0);
    p.set_fps(Some(u32::MAX));
    assert_eq!(p.target(), Some(0));
}

#[test]
fn rate_zero_asks_for_the_longest_interval() {
    let mut p = FramePacer::new(0);
    p.set_fps(Some(0));
    assert_eq!(p.target(), Some(u64::MAX));
    assert_eq!(p.delay(10), u64::MAX - 10);
}

#[test]
fn restart_moves_the_frame_start_and_keeps_the_rate() {
    let mut p = FramePacer::new(0);
    p.set_fps(Some(10));
    p.restart(500);
    assert_eq!(p.frame_start(), 500);
    assert_eq!(p.target(), Some(100));
    assert_eq!(p.delay(530), 70);
}

#[test]
fn clock_before_frame_start_counts_as_no_time_passed() {
    let mut p = FramePacer::new(500);
    p.set_fps(Some(10));
    assert_eq!(p.delay(400), 100);
}

#[test]
fn late_frames_are_not_caught_up() {
    let mut p = FramePacer::new(0);
    p.set_fps(Some(10));
    assert_eq!(p.delay(350), 0);
    p.restart(350);
    assert_eq!(p.delay(380), 70);
}
