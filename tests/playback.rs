use cli_player::wating_animation::waiting_dots;
use cli_player::video_player::{PlaybackClock, PlaybackState, VideoPlayerError, LAG_LIMIT, LAG_PENALTY};

fn playing(fps: u32) -> PlaybackClock {
    let mut clock = PlaybackClock::new(fps);
    assert_eq!(PlaybackState::Idle, clock.state());
    assert!(clock.start());
    assert!(!clock.start());
    assert_eq!(PlaybackState::Playing, clock.state());
    clock
}

#[test]
fn frame_interval_is_a_second_over_the_rate() {
    assert_eq!(66_666_666, PlaybackClock::new(15).frame_interval());
    assert_eq!(1_000_000_000, PlaybackClock::new(1).frame_interval());
}

#[test]
fn zero_render_time_never_aborts() {
    let mut clock = playing(15);
    for _ in 0..1000 {
        assert_eq!(Ok(66_666_666), clock.frame_done(0));
    }
    assert_eq!(PlaybackState::Playing, clock.state());
}

#[test]
fn constant_overrun_aborts_at_the_seventh_frame() {
    assert_eq!(7, (LAG_LIMIT + LAG_PENALTY - 1) / LAG_PENALTY);
    let mut clock = playing(15);
    for _ in 0..6 {
        assert_eq!(Ok(0), clock.frame_done(70_000_000));
    }
    assert_eq!(Err(VideoPlayerError::TooMuchLag), clock.frame_done(70_000_000));
    assert_eq!(PlaybackState::Aborted, clock.state());
}

#[test]
fn on_time_frames_pay_back_lag() {
    let mut clock = playing(10);
    for _ in 0..5 {
        assert_eq!(Ok(0), clock.frame_done(200_000_000));
    }
    // 20 credits: four frames on time bring them to 16, and two more
    // overruns reach 24, still below the limit.
    for _ in 0..4 {
        assert_eq!(Ok(40_000_000), clock.frame_done(60_000_000));
    }
    assert_eq!(Ok(0), clock.frame_done(100_000_001));
    assert_eq!(Ok(0), clock.frame_done(100_000_001));
    assert_eq!(Err(VideoPlayerError::TooMuchLag), clock.frame_done(100_000_001));
}

#[test]
fn exactly_the_interval_is_on_time() {
    let mut clock = playing(10);
    assert_eq!(Ok(0), clock.frame_done(100_000_000));
    for _ in 0..100 {
        assert_eq!(Ok(0), clock.frame_done(100_000_000));
    }
    assert_eq!(PlaybackState::Playing, clock.state());
}

#[test]
fn running_out_of_frames_drains() {
    let mut clock = playing(30);
    clock.end_of_frames();
    assert_eq!(PlaybackState::Draining, clock.state());
}

#[test]
fn waiting_dots_grow_then_start_over() {
    assert_eq!(".   ", waiting_dots(0));
    assert_eq!("..  ", waiting_dots(1));
    assert_eq!("... ", waiting_dots(2));
    assert_eq!("....", waiting_dots(3));
    assert_eq!(".   ", waiting_dots(4));
}
