use diorama::{
    moving_tier, tier_size, LoopState, Tick, Tier, IDLE_SLEEP_MS, MOVING_SLEEP_MS,
};

fn tick(moved: bool, frame_time_ms: u64, since_animation_ms: u64) -> Tick {
    Tick { moved, frame_time_ms, since_animation_ms }
}

#[test]
fn tier_sizes_divide_display() {
    assert_eq!(tier_size(Tier::Full, 800, 600), (800, 600));
    assert_eq!(tier_size(Tier::Half, 800, 600), (400, 300));
    assert_eq!(tier_size(Tier::Sixth, 800, 600), (133, 100));
    assert_eq!(tier_size(Tier::Eighth, 800, 600), (100, 75));
}

#[test]
fn moving_tier_thresholds() {
    assert_eq!(moving_tier(10, 1), Tier::Half);
    assert_eq!(moving_tier(25, 1), Tier::Half);
    assert_eq!(moving_tier(26, 1), Tier::Sixth);
    assert_eq!(moving_tier(50, 1), Tier::Sixth);
    assert_eq!(moving_tier(51, 1), Tier::Eighth);
    assert_eq!(moving_tier(10, 10), Tier::Half);
    assert_eq!(moving_tier(10, 11), Tier::Eighth);
}

#[test]
fn moving_tick_renders_low_and_sleeps_short() {
    let (s, plan) = LoopState::new().step(tick(true, 5, 1000));
    assert_eq!(s.movement_frames, 1);
    assert_eq!(s.frame_count, 1);
    assert_eq!(plan.render, Some(Tier::Half));
    assert!(!plan.animate);
    assert_eq!(plan.sleep_ms, MOVING_SLEEP_MS);
}

#[test]
fn sustained_movement_drops_to_lowest_tier() {
    let mut s = LoopState::new();
    let mut last = None;
    for _ in 0..11 {
        let (n, plan) = s.step(tick(true, 5, 0));
        s = n;
        last = plan.render;
    }
    assert_eq!(s.movement_frames, 11);
    assert_eq!(last, Some(Tier::Eighth));
}

#[test]
fn stopping_resets_movement_count() {
    let s = LoopState { movement_frames: 7, frame_count: 4 };
    let (n, plan) = s.step(tick(false, 5, 0));
    assert_eq!(n.movement_frames, 0);
    assert_eq!(plan.render, None);
    assert!(!plan.animate);
    assert_eq!(plan.sleep_ms, IDLE_SLEEP_MS);
}

#[test]
fn idle_renders_full_every_third_tick_when_animating() {
    let s = LoopState { movement_frames: 0, frame_count: 2 };
    let (_, plan) = s.step(tick(false, 5, 200));
    assert!(plan.animate);
    assert_eq!(plan.render, Some(Tier::Full));
    let s = LoopState { movement_frames: 0, frame_count: 3 };
    let (_, plan) = s.step(tick(false, 5, 200));
    assert!(plan.animate);
    assert_eq!(plan.render, None);
}

#[test]
fn idle_without_animation_renders_nothing() {
    let s = LoopState { movement_frames: 0, frame_count: 2 };
    let (_, plan) = s.step(tick(false, 5, 199));
    assert!(!plan.animate);
    assert_eq!(plan.render, None);
}

#[test]
fn counters_at_their_limits() {
    let s = LoopState { movement_frames: u64::MAX, frame_count: u64::MAX };
    let (n, _) = s.step(tick(true, 0, 0));
    assert_eq!(n.movement_frames, u64::MAX);
    assert_eq!(n.frame_count, 0);
}
