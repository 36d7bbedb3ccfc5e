use conway_rs::engine::frame_limiter::{ClockError, FrameDecision, FrameLimiter, FrameStepType};

#[test]
fn intervals_are_a_second_divided_by_the_rate() {
    let limiter = FrameLimiter::new(60, 1, 0);
    assert_eq!(limiter.get_render_interval(), 16_666_666);
    assert_eq!(limiter.get_physics_interval(), 1_000_000_000);
    assert_eq!(limiter.get_physics_rate(), 1);
    assert_eq!(limiter.get_render_rate(), 60);
}

#[test]
fn poll_waits_for_the_earlier_deadline() {
    let mut limiter = FrameLimiter::new(60, 1, 1_000);
    assert_eq!(limiter.poll(1_000), Ok(FrameDecision::Wait(16_666_666)));
    assert_eq!(limiter.poll(1_000 + 6_666_666), Ok(FrameDecision::Wait(10_000_000)));
    assert_eq!(limiter.poll(1_000 + 16_666_665), Ok(FrameDecision::Wait(1)));
    assert_eq!(limiter.poll(1_000 + 16_666_666), Ok(FrameDecision::Fire(FrameStepType::Render)));
    assert_eq!(limiter.poll(1_000 + 16_666_666), Ok(FrameDecision::Wait(16_666_666)));
}

#[test]
fn poll_fires_both_when_both_are_due() {
    let mut limiter = FrameLimiter::new(2, 1, 0);
    assert_eq!(limiter.poll(1_000_000_000), Ok(FrameDecision::Fire(FrameStepType::RenderAndPhysics)));
    assert_eq!(limiter.poll(1_000_000_000), Ok(FrameDecision::Wait(500_000_000)));
}

#[test]
fn poll_fires_physics_alone() {
    let mut limiter = FrameLimiter::new(1, 4, 0);
    assert_eq!(limiter.poll(250_000_000), Ok(FrameDecision::Fire(FrameStepType::Physics)));
    assert_eq!(limiter.poll(300_000_000), Ok(FrameDecision::Wait(200_000_000)));
}

#[test]
fn poll_reports_a_clock_that_went_back() {
    let mut limiter = FrameLimiter::new(60, 1, 5_000);
    assert_eq!(limiter.poll(4_999), Err(ClockError));
    assert_eq!(limiter.poll(5_000), Ok(FrameDecision::Wait(16_666_666)));
}

#[test]
fn a_new_rate_is_held_against_the_old_reference_point() {
    let mut limiter = FrameLimiter::new(60, 1, 0);
    assert_eq!(limiter.poll(300_000_000), Ok(FrameDecision::Fire(FrameStepType::Render)));
    limiter.set_physics_rate(5);
    assert_eq!(limiter.get_physics_rate(), 5);
    assert_eq!(limiter.get_physics_interval(), 200_000_000);
    assert_eq!(limiter.poll(300_000_001), Ok(FrameDecision::Fire(FrameStepType::Physics)));
    limiter.set_render_rate(10);
    assert_eq!(limiter.get_render_interval(), 100_000_000);
    assert_eq!(limiter.poll(300_000_002), Ok(FrameDecision::Wait(99_999_998)));
}

#[test]
fn ticks_come_once_a_second_and_never_a_render_interval_late() {
    let mut limiter = FrameLimiter::new(60, 1, 0);
    let render_interval = limiter.get_render_interval();
    let mut now: u64 = 0;
    let mut last_tick: u64 = 0;
    let mut ticks = 0;
    let mut renders = 0;
    while now < 30 * 1_000_000_000 {
        match limiter.poll(now).unwrap() {
            FrameDecision::Wait(nanos) => {
                assert!(nanos > 0);
                now += nanos;
            }
            FrameDecision::Fire(kind) => {
                if kind != FrameStepType::Physics {
                    renders += 1;
                }
                if kind != FrameStepType::Render {
                    ticks += 1;
                    let since = now - last_tick;
                    assert!(since >= 1_000_000_000);
                    assert!(since < 1_000_000_000 + render_interval);
                    last_tick = now;
                }
                // The work of a frame takes a little time.
                now += 1_000;
            }
        }
    }
    assert!(ticks == 29 || ticks == 30);
    assert!(renders >= 29 * 59);
}

#[test]
fn on_an_ideal_clock_ticks_come_exactly_on_the_second() {
    // Sleeping takes exactly as long as was asked, and nothing else takes time.
    let mut limiter = FrameLimiter::new(60, 1, 0);
    let mut now: u64 = 0;
    let mut tick_times = Vec::new();
    let mut turns = 0;
    while tick_times.len() < 10 {
        turns += 1;
        match limiter.poll(now).unwrap() {
            FrameDecision::Wait(nanos) => now += nanos,
            FrameDecision::Fire(kind) => {
                if kind != FrameStepType::Render {
                    tick_times.push(now);
                }
            }
        }
    }
    let expected: Vec<u64> = (1..=10).map(|k| k * 1_000_000_000).collect();
    assert_eq!(tick_times, expected);
    // Sixty redraws and one tick a second, each followed by a sleep.
    assert!(turns <= 2 * 10 * 61);
}
