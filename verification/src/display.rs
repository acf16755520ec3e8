//! The display collaborator interface. A rendering backend consumes a
//! read-only view of the framebuffer and redraws it; the core calls it after
//! every instruction that mutates the framebuffer.
use crate::gpu::GraphicMemory;
use vstd::prelude::*;

verus! {

/// Width of the framebuffer in pixels.
pub const DISPLAY_WIDTH: usize = 64;

/// Height of the framebuffer in pixels.
pub const DISPLAY_HEIGHT: usize = 32;

/// A rendering backend. Implementations live outside the core (a terminal, a
/// canvas); the core promises nothing about them and asks nothing of them.
pub trait GraphicDisplay {
    fn draw(&mut self, memory: &GraphicMemory);
}

} // verus!
