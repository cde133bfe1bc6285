//! Sizes, context attributes and capability limits: the plain values the
//! worker exchanges with the context factory and the compositor service.

use vstd::prelude::*;

verus! {

/// A buffer size in pixels. Always non-negative; after any completed resize
/// it must reflect the backend's true current buffer dimensions.
#[derive(Clone, Copy, Debug, PartialEq, Eq, Structural)]
pub struct Size {
    pub width: u32,
    pub height: u32,
}

impl Size {
    pub fn new(width: u32, height: u32) -> (s: Size)
        ensures
            s.width == width,
            s.height == height,
    {
        Size { width, height }
    }
}

/// A resize request must reallocate the underlying buffer exactly when it
/// grows the surface in either dimension; a shrink-or-equal request is
/// served by clipping the existing larger buffer instead.
pub open spec fn must_reallocate(current: Size, requested: Size) -> bool {
    requested.width > current.width || requested.height > current.height
}

/// Executable form of the resize policy decision.
pub fn needs_reallocation(current: Size, requested: Size) -> (r: bool)
    ensures
        r == must_reallocate(current, requested),
{
    requested.width > current.width || requested.height > current.height
}

/// Requested configuration for a rendering context.
#[derive(Clone, Copy, Debug)]
pub struct ContextAttributes {
    /// Allow a transparent background.
    pub alpha: bool,
    /// Allocate depth buffer storage.
    pub depth: bool,
    /// Allocate stencil buffer storage.
    pub stencil: bool,
    /// Request multisampling.
    pub antialias: bool,
}

/// Capability limits reported once by a context at creation; never mutated.
#[derive(Clone, Copy, Debug)]
pub struct GLLimits {
    pub max_vertex_attribs: u32,
    pub max_tex_size: u32,
    pub max_cube_map_tex_size: u32,
    pub max_combined_texture_image_units: u32,
    pub max_fragment_uniform_vectors: u32,
    pub max_renderbuffer_size: u32,
    pub max_texture_image_units: u32,
    pub max_varying_vectors: u32,
    pub max_vertex_texture_image_units: u32,
    pub max_vertex_uniform_vectors: u32,
}

/// Which concrete local context implementation the fallback backend uses.
#[derive(Clone, Copy, Debug, PartialEq, Eq, Structural)]
pub enum ContextFlavor {
    /// Hardware-accelerated native context.
    Hardware,
    /// Software-rendered context.
    Software,
}

/// The flavor selector consumes the configuration flag as an explicit
/// boolean; the worker never reads ambient process-wide state.
pub fn choose_flavor(prefer_software: bool) -> (f: ContextFlavor)
    ensures
        (f is Software) <==> prefer_software,
{
    if prefer_software {
        ContextFlavor::Software
    } else {
        ContextFlavor::Hardware
    }
}

} // verus!
