//! Identifier-by-string wrappers for dynamic embeddings.
//!
//! A scripting host addresses every resource by a plain string, so these
//! types wrap the link records behind an API that passes strings by
//! value: constructors take owned ids, getters hand copies out, and
//! `into_inner` / `inner` unwrap the underlying link for registration
//! with the builder.

use vstd::prelude::*;

use crate::links::{clone_strings, BufferLink, ProgramLink, TextureLink, UniformLink};
use crate::resources::Texture;

verus! {

pub type JsProgramLinkInner = ProgramLink;

pub type BufferLinkJsInner = BufferLink;

pub type TextureLinkJsInner = TextureLink;

pub type TextureJsInner = Texture;

pub type UniformLinkJsInner = UniformLink;

/// A program link addressed by strings.
pub struct JsProgramLink {
    link: ProgramLink,
}

impl JsProgramLink {
    pub closed spec fn spec_inner(self) -> ProgramLink {
        self.link
    }

    pub fn new(program_id: String, vertex_shader_id: String, fragment_shader_id: String) -> (r:
        Self)
        ensures
            r.spec_inner().program_id@ == program_id@,
            r.spec_inner().vertex_shader_id@ == vertex_shader_id@,
            r.spec_inner().fragment_shader_id@ == fragment_shader_id@,
    {
        JsProgramLink { link: ProgramLink::new(program_id, vertex_shader_id, fragment_shader_id) }
    }

    pub fn program_id(&self) -> (r: String)
        ensures
            r@ == self.spec_inner().program_id@,
    {
        self.link.program_id().clone()
    }

    pub fn vertex_shader_id(&self) -> (r: String)
        ensures
            r@ == self.spec_inner().vertex_shader_id@,
    {
        self.link.vertex_shader_id().clone()
    }

    pub fn fragment_shader_id(&self) -> (r: String)
        ensures
            r@ == self.spec_inner().fragment_shader_id@,
    {
        self.link.fragment_shader_id().clone()
    }

    pub fn transform_feedback_varyings(&self) -> (r: Vec<String>)
        ensures
            r@ == self.spec_inner().transform_feedback_varyings@,
    {
        clone_strings(self.link.transform_feedback_varyings())
    }

    /// A builder collecting the three identifiers one at a time.
    pub fn builder() -> (r: JsProgramLinkBuilder)
        ensures
            r.spec_program_id()@ == Seq::<char>::empty(),
            r.spec_vertex_shader_id()@ == Seq::<char>::empty(),
            r.spec_fragment_shader_id()@ == Seq::<char>::empty(),
    {
        JsProgramLinkBuilder::new()
    }

    /// Unwraps the underlying program link.
    pub fn inner(self) -> (r: ProgramLink)
        ensures
            r == self.spec_inner(),
    {
        self.link
    }
}

/// Collects the identifiers of a `JsProgramLink`; unset identifiers stay
/// empty strings.
pub struct JsProgramLinkBuilder {
    program_id: String,
    vertex_shader_id: String,
    fragment_shader_id: String,
}

impl JsProgramLinkBuilder {
    pub closed spec fn spec_program_id(self) -> String {
        self.program_id
    }

    pub closed spec fn spec_vertex_shader_id(self) -> String {
        self.vertex_shader_id
    }

    pub closed spec fn spec_fragment_shader_id(self) -> String {
        self.fragment_shader_id
    }

    pub fn new() -> (r: Self)
        ensures
            r.spec_program_id()@ == Seq::<char>::empty(),
            r.spec_vertex_shader_id()@ == Seq::<char>::empty(),
            r.spec_fragment_shader_id()@ == Seq::<char>::empty(),
    {
        JsProgramLinkBuilder {
            program_id: String::new(),
            vertex_shader_id: String::new(),
            fragment_shader_id: String::new(),
        }
    }

    pub fn set_program_id(&mut self, program_id: String)
        ensures
            final(self).spec_program_id() == program_id,
            final(self).spec_vertex_shader_id() == old(self).spec_vertex_shader_id(),
            final(self).spec_fragment_shader_id() == old(self).spec_fragment_shader_id(),
    {
        self.program_id = program_id;
    }

    pub fn set_vertex_shader_id(&mut self, vertex_shader_id: String)
        ensures
            final(self).spec_vertex_shader_id() == vertex_shader_id,
            final(self).spec_program_id() == old(self).spec_program_id(),
            final(self).spec_fragment_shader_id() == old(self).spec_fragment_shader_id(),
    {
        self.vertex_shader_id = vertex_shader_id;
    }

    pub fn set_fragment_shader_id(&mut self, fragment_shader_id: String)
        ensures
            final(self).spec_fragment_shader_id() == fragment_shader_id,
            final(self).spec_program_id() == old(self).spec_program_id(),
            final(self).spec_vertex_shader_id() == old(self).spec_vertex_shader_id(),
    {
        self.fragment_shader_id = fragment_shader_id;
    }

    pub fn build(self) -> (r: JsProgramLink)
        ensures
            r.spec_inner().program_id@ == self.spec_program_id()@,
            r.spec_inner().vertex_shader_id@ == self.spec_vertex_shader_id()@,
            r.spec_inner().fragment_shader_id@ == self.spec_fragment_shader_id()@,
    {
        JsProgramLink {
            link: ProgramLink::new(
                self.program_id,
                self.vertex_shader_id,
                self.fragment_shader_id,
            ),
        }
    }
}

/// A buffer link addressed by a string.
pub struct BufferLinkJs {
    link: BufferLink,
}

impl BufferLinkJs {
    pub closed spec fn spec_inner(self) -> BufferLink {
        self.link
    }

    pub fn new(buffer_id: String) -> (r: Self)
        ensures
            r.spec_inner().buffer_id@ == buffer_id@,
    {
        BufferLinkJs { link: BufferLink::new(buffer_id) }
    }

    pub fn buffer_id(&self) -> (r: String)
        ensures
            r@ == self.spec_inner().buffer_id@,
    {
        self.link.buffer_id().clone()
    }

    /// Unwraps the underlying buffer link.
    pub fn into_inner(self) -> (r: BufferLink)
        ensures
            r == self.spec_inner(),
    {
        self.link
    }
}

/// A texture link addressed by a string.
pub struct TextureLinkJs {
    link: TextureLink,
}

impl TextureLinkJs {
    pub closed spec fn spec_inner(self) -> TextureLink {
        self.link
    }

    pub fn new(texture_id: String) -> (r: Self)
        ensures
            r.spec_inner().texture_id@ == texture_id@,
    {
        TextureLinkJs { link: TextureLink::new(texture_id) }
    }

    pub fn texture_id(&self) -> (r: String)
        ensures
            r@ == self.spec_inner().texture_id@,
    {
        self.link.texture_id().clone()
    }

    /// Unwraps the underlying texture link.
    pub fn into_inner(self) -> (r: TextureLink)
        ensures
            r == self.spec_inner(),
    {
        self.link
    }
}

/// A resolved texture addressed by a string.
pub struct TextureJs {
    texture: Texture,
}

impl TextureJs {
    pub closed spec fn spec_inner(self) -> Texture {
        self.texture
    }

    pub fn new(texture: Texture) -> (r: Self)
        ensures
            r.spec_inner() == texture,
    {
        TextureJs { texture }
    }

    pub fn texture_id(&self) -> (r: String)
        ensures
            r@ == self.spec_inner().texture_id@,
    {
        self.texture.texture_id().clone()
    }

    pub fn webgl_texture(&self) -> (r: u64)
        ensures
            r == self.spec_inner().webgl_texture,
    {
        self.texture.webgl_texture()
    }
}

/// A uniform link addressed by strings.
pub struct UniformLinkJs {
    link: UniformLink,
}

impl UniformLinkJs {
    pub closed spec fn spec_inner(self) -> UniformLink {
        self.link
    }

    pub fn new(program_ids: Vec<String>, uniform_id: String) -> (r: Self)
        ensures
            r.spec_inner().program_ids@ == program_ids@,
            r.spec_inner().uniform_id@ == uniform_id@,
            !r.spec_inner().use_init_callback_for_update,
    {
        UniformLinkJs { link: UniformLink::new(program_ids, uniform_id) }
    }

    pub fn program_ids(&self) -> (r: Vec<String>)
        ensures
            r@ == self.spec_inner().program_ids@,
    {
        clone_strings(self.link.program_ids())
    }

    pub fn uniform_id(&self) -> (r: String)
        ensures
            r@ == self.spec_inner().uniform_id@,
    {
        self.link.uniform_id().clone()
    }

    pub fn use_init_callback_for_update(&self) -> (r: bool)
        ensures
            r == self.spec_inner().use_init_callback_for_update,
    {
        self.link.use_init_callback_for_update()
    }

    pub fn set_use_init_callback_for_update(&mut self, use_init_callback_for_update: bool)
        ensures
            final(self).spec_inner().use_init_callback_for_update
                == use_init_callback_for_update,
            final(self).spec_inner().program_ids == old(self).spec_inner().program_ids,
            final(self).spec_inner().uniform_id == old(self).spec_inner().uniform_id,
    {
        self.link.set_use_init_callback_for_update(use_init_callback_for_update);
    }

    /// Unwraps the underlying uniform link.
    pub fn into_inner(self) -> (r: UniformLink)
        ensures
            r == self.spec_inner(),
    {
        self.link
    }
}

} // verus!
