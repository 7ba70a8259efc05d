//! A resource-linking and build-time wiring engine for a WebGL2-style
//! rendering device.
//!
//! Callers describe shaders, programs, buffers, attributes, textures,
//! framebuffers, uniforms and transform feedbacks as declarative link
//! records keyed by string identifiers.  A builder resolves the links in
//! dependency order against a modeled rendering device, producing an
//! immutable renderer whose resource tables are queryable, together with
//! an animation handle that drives a per-frame update/render protocol.
//!
//! The device (`gpu::Gpu`) is a verified model: it allocates handles,
//! tracks object and binding state, decides compilation and name lookup
//! from the source text, and records every state-changing call in a
//! command log that an embedder can replay against a real rendering
//! context.

pub mod animation;
pub mod callbacks;
pub mod canvas;
pub mod error;
pub mod gpu;
pub mod interop;
pub mod links;
pub mod renderer;
pub mod resources;
pub mod source_text;
pub mod table;
