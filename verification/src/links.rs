//! Link descriptors: declarative registrations the builder resolves.
//!
//! Each link pairs a string identifier with the cross-references the
//! resource needs (a program link names its shaders, an attribute link its
//! buffer and owning programs, a framebuffer link an optional texture).
//! The behaviour that creates and updates the resources lives in the
//! scene's `SceneCallbacks` implementation, which the builder invokes with
//! the identifiers recorded here.  For attributes and uniforms the
//! identifier doubles as the name looked up inside the compiled program.

use vstd::prelude::*;

verus! {

/// Clones a vector of strings, value for value.
pub fn clone_strings(v: &Vec<String>) -> (r: Vec<String>)
    ensures
        r@ == v@,
{
    let mut r: Vec<String> = Vec::new();
    let n = v.len();
    let mut i: usize = 0;
    while i < n
        invariant
            n == v@.len(),
            i <= n,
            r@ =~= v@.subrange(0, i as int),
        decreases n - i,
    {
        r.push(v[i].clone());
        proof {
            assert(r@ =~= v@.subrange(0, i + 1));
        }
        i += 1;
    }
    proof {
        assert(r@ =~= v@);
    }
    r
}

/// Declares a program: which vertex and fragment shader it links, and
/// which varyings its transform feedback captures.
pub struct ProgramLink {
    pub program_id: String,
    pub vertex_shader_id: String,
    pub fragment_shader_id: String,
    pub transform_feedback_varyings: Vec<String>,
}

impl ProgramLink {
    pub fn new(program_id: String, vertex_shader_id: String, fragment_shader_id: String) -> (r:
        Self)
        ensures
            r.program_id@ == program_id@,
            r.vertex_shader_id@ == vertex_shader_id@,
            r.fragment_shader_id@ == fragment_shader_id@,
            r.transform_feedback_varyings@ == Seq::<String>::empty(),
    {
        ProgramLink {
            program_id,
            vertex_shader_id,
            fragment_shader_id,
            transform_feedback_varyings: Vec::new(),
        }
    }

    pub fn program_id(&self) -> (r: &String)
        ensures
            r == self.program_id,
    {
        &self.program_id
    }

    pub fn vertex_shader_id(&self) -> (r: &String)
        ensures
            r == self.vertex_shader_id,
    {
        &self.vertex_shader_id
    }

    pub fn fragment_shader_id(&self) -> (r: &String)
        ensures
            r == self.fragment_shader_id,
    {
        &self.fragment_shader_id
    }

    pub fn transform_feedback_varyings(&self) -> (r: &Vec<String>)
        ensures
            r == self.transform_feedback_varyings,
    {
        &self.transform_feedback_varyings
    }

    pub fn set_transform_feedback_varyings(&mut self, varyings: Vec<String>)
        ensures
            final(self).transform_feedback_varyings == varyings,
            final(self).program_id == old(self).program_id,
            final(self).vertex_shader_id == old(self).vertex_shader_id,
            final(self).fragment_shader_id == old(self).fragment_shader_id,
    {
        self.transform_feedback_varyings = varyings;
    }
}

/// Declares a buffer.
pub struct BufferLink {
    pub buffer_id: String,
}

impl BufferLink {
    pub fn new(buffer_id: String) -> (r: Self)
        ensures
            r.buffer_id@ == buffer_id@,
    {
        BufferLink { buffer_id }
    }

    pub fn buffer_id(&self) -> (r: &String)
        ensures
            r == self.buffer_id,
    {
        &self.buffer_id
    }
}

/// Declares an attribute: its name, the buffer that feeds it, and the
/// programs whose vertex array objects bind it.
pub struct AttributeLink {
    pub program_ids: Vec<String>,
    pub buffer_id: String,
    pub attribute_id: String,
}

impl AttributeLink {
    pub fn new(program_ids: Vec<String>, buffer_id: String, attribute_id: String) -> (r: Self)
        ensures
            r.program_ids@ == program_ids@,
            r.buffer_id@ == buffer_id@,
            r.attribute_id@ == attribute_id@,
    {
        AttributeLink { program_ids, buffer_id, attribute_id }
    }

    pub fn program_ids(&self) -> (r: &Vec<String>)
        ensures
            r == self.program_ids,
    {
        &self.program_ids
    }

    pub fn buffer_id(&self) -> (r: &String)
        ensures
            r == self.buffer_id,
    {
        &self.buffer_id
    }

    pub fn attribute_id(&self) -> (r: &String)
        ensures
            r == self.attribute_id,
    {
        &self.attribute_id
    }
}

/// Declares a texture.
pub struct TextureLink {
    pub texture_id: String,
}

impl TextureLink {
    pub fn new(texture_id: String) -> (r: Self)
        ensures
            r.texture_id@ == texture_id@,
    {
        TextureLink { texture_id }
    }

    pub fn texture_id(&self) -> (r: &String)
        ensures
            r == self.texture_id,
    {
        &self.texture_id
    }
}

/// Declares a framebuffer, optionally backed by a registered texture.
pub struct FramebufferLink {
    pub framebuffer_id: String,
    pub texture_id: Option<String>,
}

impl FramebufferLink {
    pub fn new(framebuffer_id: String, texture_id: Option<String>) -> (r: Self)
        ensures
            r.framebuffer_id@ == framebuffer_id@,
            r.texture_id == texture_id,
    {
        FramebufferLink { framebuffer_id, texture_id }
    }

    pub fn framebuffer_id(&self) -> (r: &String)
        ensures
            r == self.framebuffer_id,
    {
        &self.framebuffer_id
    }

    pub fn texture_id(&self) -> (r: &Option<String>)
        ensures
            r == self.texture_id,
    {
        &self.texture_id
    }
}

/// Declares a uniform: its name and the programs that own it.  When
/// `use_init_callback_for_update` is set, per-frame updates re-run the
/// initialize callback instead of the update callback.
pub struct UniformLink {
    pub program_ids: Vec<String>,
    pub uniform_id: String,
    pub use_init_callback_for_update: bool,
}

impl UniformLink {
    pub fn new(program_ids: Vec<String>, uniform_id: String) -> (r: Self)
        ensures
            r.program_ids@ == program_ids@,
            r.uniform_id@ == uniform_id@,
            !r.use_init_callback_for_update,
    {
        UniformLink { program_ids, uniform_id, use_init_callback_for_update: false }
    }

    pub fn program_ids(&self) -> (r: &Vec<String>)
        ensures
            r == self.program_ids,
    {
        &self.program_ids
    }

    pub fn uniform_id(&self) -> (r: &String)
        ensures
            r == self.uniform_id,
    {
        &self.uniform_id
    }

    pub fn use_init_callback_for_update(&self) -> (r: bool)
        ensures
            r == self.use_init_callback_for_update,
    {
        self.use_init_callback_for_update
    }

    pub fn set_use_init_callback_for_update(&mut self, use_init_callback_for_update: bool)
        ensures
            final(self).use_init_callback_for_update == use_init_callback_for_update,
            final(self).program_ids == old(self).program_ids,
            final(self).uniform_id == old(self).uniform_id,
    {
        self.use_init_callback_for_update = use_init_callback_for_update;
    }
}

/// Declares a transform-feedback object.
pub struct TransformFeedbackLink {
    pub transform_feedback_id: String,
}

impl TransformFeedbackLink {
    pub fn new(transform_feedback_id: String) -> (r: Self)
        ensures
            r.transform_feedback_id@ == transform_feedback_id@,
    {
        TransformFeedbackLink { transform_feedback_id }
    }

    pub fn transform_feedback_id(&self) -> (r: &String)
        ensures
            r == self.transform_feedback_id,
    {
        &self.transform_feedback_id
    }
}

} // verus!
