//! The drawing surface a renderer is built against.
//!
//! A `Canvas` stands for the host's 2D drawing surface: it has pixel
//! dimensions and either can or cannot hand out a WebGL2-style rendering
//! context.  `ContextAttributes` carries the options used when the
//! context is acquired; preserving the drawing buffer is required for
//! frame capture to produce valid output.

use vstd::prelude::*;

verus! {

#[derive(Clone, Copy)]
pub struct Canvas {
    width: u32,
    height: u32,
    context_available: bool,
}

impl Canvas {
    pub closed spec fn spec_width(self) -> u32 {
        self.width
    }

    pub closed spec fn spec_height(self) -> u32 {
        self.height
    }

    /// Whether the canvas can hand out a WebGL2-style context.
    pub closed spec fn spec_context_available(self) -> bool {
        self.context_available
    }

    /// A canvas whose context acquisition succeeds.
    pub fn new(width: u32, height: u32) -> (r: Self)
        ensures
            r.spec_width() == width,
            r.spec_height() == height,
            r.spec_context_available(),
    {
        Canvas { width, height, context_available: true }
    }

    /// A canvas whose context acquisition reports no context, as a host
    /// without WebGL2 support would.
    pub fn new_without_context(width: u32, height: u32) -> (r: Self)
        ensures
            r.spec_width() == width,
            r.spec_height() == height,
            !r.spec_context_available(),
    {
        Canvas { width, height, context_available: false }
    }

    pub fn width(&self) -> (r: u32)
        ensures
            r == self.spec_width(),
    {
        self.width
    }

    pub fn height(&self) -> (r: u32)
        ensures
            r == self.spec_height(),
    {
        self.height
    }

    pub fn context_available(&self) -> (r: bool)
        ensures
            r == self.spec_context_available(),
    {
        self.context_available
    }
}

/// Options applied when a rendering context is acquired from a canvas.
#[derive(Clone, Copy)]
pub struct ContextAttributes {
    preserve_drawing_buffer: bool,
}

impl ContextAttributes {
    pub closed spec fn spec_preserve_drawing_buffer(self) -> bool {
        self.preserve_drawing_buffer
    }

    pub fn new() -> (r: Self)
        ensures
            !r.spec_preserve_drawing_buffer(),
    {
        ContextAttributes { preserve_drawing_buffer: false }
    }

    /// Requests that the drawing buffer keep its contents between frames,
    /// which frame capture needs.
    pub fn set_preserve_drawing_buffer(&mut self, preserve: bool)
        ensures
            final(self).spec_preserve_drawing_buffer() == preserve,
    {
        self.preserve_drawing_buffer = preserve;
    }

    pub fn preserve_drawing_buffer(&self) -> (r: bool)
        ensures
            r == self.spec_preserve_drawing_buffer(),
    {
        self.preserve_drawing_buffer
    }
}

impl Default for ContextAttributes {
    fn default() -> (r: Self)
        ensures
            !r.spec_preserve_drawing_buffer(),
    {
        ContextAttributes::new()
    }
}

} // verus!
