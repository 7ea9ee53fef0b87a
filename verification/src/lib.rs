//! Device-memory bookkeeping, rendering descriptors and small scheduling helpers of a
//! Vulkan-style renderer.

pub mod command_encoder;
pub mod gfx;
pub mod graph;
pub mod render_context;
pub mod resource;
pub mod tasks;
pub mod util;
