use vstd::prelude::*;

verus! {

/// A frame that took longer than this while moving drops to the lowest tier.
pub const SLOW_FRAME_MS: u64 = 50;

/// A frame that took longer than this while moving drops to the sixth tier.
pub const MEDIUM_FRAME_MS: u64 = 25;

/// After more consecutive moving ticks than this, the lowest tier is used.
pub const SUSTAINED_MOVES: u64 = 10;

/// While idle, the full tier is rendered on every tick whose count is a multiple of this.
pub const FULL_EVERY: u64 = 3;

/// The idle animation steps at most once per this many milliseconds.
pub const ANIMATION_PERIOD_MS: u64 = 200;

/// The pause after a tick with movement.
pub const MOVING_SLEEP_MS: u64 = 8;

/// The pause after an idle tick.
pub const IDLE_SLEEP_MS: u64 = 100;

/// A framebuffer resolution: the display size divided by 1, 2, 6 or 8.
#[derive(Clone, Copy, Debug, PartialEq, Eq, Structural)]
pub enum Tier {
    Full,
    Half,
    Sixth,
    Eighth,
}

/// What the render loop remembers from one tick to the next.
#[derive(Clone, Copy, Debug, PartialEq, Eq, Structural)]
pub struct LoopState {
    /// Consecutive ticks with movement, this one included.
    pub movement_frames: u64,
    /// Ticks so far, counted modulo 2^64.
    pub frame_count: u64,
}

/// What one tick of input polling observed.
#[derive(Clone, Copy, Debug, PartialEq, Eq, Structural)]
pub struct Tick {
    /// A movement or orbit key is down.
    pub moved: bool,
    /// How long the previous tick took, in milliseconds.
    pub frame_time_ms: u64,
    /// Milliseconds since the animation last stepped.
    pub since_animation_ms: u64,
}

/// What the render loop does on a tick.
#[derive(Clone, Copy, Debug, PartialEq, Eq, Structural)]
pub struct Plan {
    /// Step the environmental animation.
    pub animate: bool,
    /// Render and present at this tier, if any.
    pub render: Option<Tier>,
    /// Pause this many milliseconds afterwards.
    pub sleep_ms: u64,
}

/// The divisor of a tier's resolution.
pub open spec fn divisor(tier: Tier) -> int {
    match tier {
        Tier::Full => 1,
        Tier::Half => 2,
        Tier::Sixth => 6,
        Tier::Eighth => 8,
    }
}

/// The tier for a moving tick: slow frames or sustained movement lower it.
pub open spec fn moving_tier_of(frame_time_ms: int, movement_frames: int) -> Tier {
    if frame_time_ms > SLOW_FRAME_MS || movement_frames > SUSTAINED_MOVES {
        Tier::Eighth
    } else if frame_time_ms > MEDIUM_FRAME_MS {
        Tier::Sixth
    } else {
        Tier::Half
    }
}

/// The state after a tick.
pub open spec fn next_state(s: LoopState, t: Tick) -> LoopState {
    LoopState {
        movement_frames: if t.moved {
            if s.movement_frames == u64::MAX {
                u64::MAX
            } else {
                (s.movement_frames + 1) as u64
            }
        } else {
            0
        },
        frame_count: ((s.frame_count + 1) % 0x1_0000_0000_0000_0000) as u64,
    }
}

/// The plan for a tick: move at a tier chosen from the last frame time and
/// how long the movement has lasted; when idle, step the animation once its
/// period has passed and then render the full tier on every third tick.
pub open spec fn plan_of(s: LoopState, t: Tick) -> Plan {
    let n = next_state(s, t);
    let animate = !t.moved && t.since_animation_ms >= ANIMATION_PERIOD_MS;
    Plan {
        animate,
        render: if t.moved {
            Some(moving_tier_of(t.frame_time_ms as int, n.movement_frames as int))
        } else if animate && n.frame_count % FULL_EVERY == 0 {
            Some(Tier::Full)
        } else {
            None
        },
        sleep_ms: if t.moved {
            MOVING_SLEEP_MS
        } else {
            IDLE_SLEEP_MS
        },
    }
}

/// The size of a tier's framebuffer for a display of `width`×`height`.
pub fn tier_size(tier: Tier, width: usize, height: usize) -> (r: (usize, usize))
    ensures
        r.0 == (width as int) / divisor(tier),
        r.1 == (height as int) / divisor(tier),
{
    match tier {
        Tier::Full => (width, height),
        Tier::Half => (width / 2, height / 2),
        Tier::Sixth => (width / 6, height / 6),
        Tier::Eighth => (width / 8, height / 8),
    }
}

/// The tier to render while moving.
pub fn moving_tier(frame_time_ms: u64, movement_frames: u64) -> (r: Tier)
    ensures
        r == moving_tier_of(frame_time_ms as int, movement_frames as int),
{
    if frame_time_ms > SLOW_FRAME_MS || movement_frames > SUSTAINED_MOVES {
        Tier::Eighth
    } else if frame_time_ms > MEDIUM_FRAME_MS {
        Tier::Sixth
    } else {
        Tier::Half
    }
}

impl LoopState {
    /// The state before the first tick.
    pub fn new() -> (s: LoopState)
        ensures
            s.movement_frames == 0,
            s.frame_count == 0,
    {
        LoopState { movement_frames: 0, frame_count: 0 }
    }

    /// One tick of the render loop: the next state and what to do.
    pub fn step(&self, tick: Tick) -> (r: (LoopState, Plan))
        ensures
            r.0 == next_state(*self, tick),
            r.1 == plan_of(*self, tick),
    {
        let movement_frames: u64 = if tick.moved {
            self.movement_frames.saturating_add(1)
        } else {
            0
        };
        let frame_count: u64 = self.frame_count.wrapping_add(1);
        let next = LoopState { movement_frames, frame_count };
        let animate: bool = !tick.moved && tick.since_animation_ms >= ANIMATION_PERIOD_MS;
        let render: Option<Tier> = if tick.moved {
            Some(moving_tier(tick.frame_time_ms, movement_frames))
        } else if animate && frame_count % FULL_EVERY == 0 {
            Some(Tier::Full)
        } else {
            None
        };
        let sleep_ms: u64 = if tick.moved {
            MOVING_SLEEP_MS
        } else {
            IDLE_SLEEP_MS
        };
        (next, Plan { animate, render, sleep_ms })
    }
}

} // verus!
