//! The rendering interface a display backend implements.

use vstd::prelude::*;

use crate::chip8::Chip8;

verus! {

/// What a display backend provides: setup, drawing one frame from the
/// machine's framebuffer, and teardown.
pub trait Renderer {
    /// Prepares the display.
    fn init(&mut self);

    /// Draws the machine's framebuffer.
    fn render(&mut self, chip8: &Chip8);

    /// Releases what `init` acquired.
    fn cleanup(&mut self);
}

} // verus!
