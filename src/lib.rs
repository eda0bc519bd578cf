//! The exact core of a voxel-cube ray tracer: saturating colours, textures
//! and materials, cube intersection by the slab method on fixed-point
//! coordinates, nearest-hit and shadow decisions, framebuffer upscaling, and
//! the adaptive-resolution policy of the render loop.

pub mod color;
pub mod cube;
pub mod framebuffer;
pub mod material;
pub mod raytracer;
pub mod schedule;
pub mod texture;

pub use color::{Color, SCALE_ONE};
pub use cube::{Cube, Hit, Point, COORD_LIMIT, POS_ONE, outward_normal};
pub use framebuffer::{Framebuffer, upscale_framebuffer};
pub use material::{Material, WEIGHT_ONE};
pub use raytracer::{
    RayOutcome, MAX_DEPTH, SHADOW_FACTOR, SHADOW_PROBES, background, nearest_hit, ray_outcome,
    shade, shadow_factor, shadow_probe_count,
};
pub use texture::{Texture, UV_ONE};
pub use schedule::{
    LoopState, Plan, Tick, Tier, ANIMATION_PERIOD_MS, FULL_EVERY, IDLE_SLEEP_MS, MEDIUM_FRAME_MS,
    MOVING_SLEEP_MS, SLOW_FRAME_MS, SUSTAINED_MOVES, moving_tier, tier_size,
};
