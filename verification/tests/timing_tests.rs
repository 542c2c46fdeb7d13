use bracket_terminal::timing::{fps_sleep, FpsSample, FrameTimer};

#[test]
fn frames_are_counted_per_second() {
    let mut t = FrameTimer::new(0, 0);
    let a = t.tick(0, 16);
    assert_eq!(a.fps_sample, None);
    assert_eq!(a.frame_time_ms, Some(16));
    let b = t.tick(0, 16);
    assert_eq!(b.frame_time_ms, None);
    let c = t.tick(1, 1000);
    assert_eq!(c.fps_sample, Some(FpsSample { frames: 3, seconds: 1 }));
    assert_eq!(c.frame_time_ms, Some(984));
    assert_eq!(t.frames, 0);
    assert_eq!(t.prev_seconds, 1);
}

#[test]
fn sleep_fills_the_rest_of_the_frame() {
    assert_eq!(fps_sleep(None, 100, 0), None);
    assert_eq!(fps_sleep(Some(33), 110, 100), Some(23));
    assert_eq!(fps_sleep(Some(33), 200, 100), None);
    assert_eq!(fps_sleep(Some(10), 110, 100), None);
}
