//! Resolved resources: what the build pipeline produces for each link.
//!
//! Each record pairs the originating identifier with the device handle
//! the creation callback returned, plus — for attributes and uniforms —
//! the location resolved per owning program.

use vstd::prelude::*;

use crate::table::Table;

verus! {

/// A resolved buffer.
pub struct Buffer {
    pub buffer_id: String,
    pub webgl_buffer: u64,
}

impl Buffer {
    pub fn new(buffer_id: String, webgl_buffer: u64) -> (r: Self)
        ensures
            r.buffer_id@ == buffer_id@,
            r.webgl_buffer == webgl_buffer,
    {
        Buffer { buffer_id, webgl_buffer }
    }

    pub fn buffer_id(&self) -> (r: &String)
        ensures
            r == self.buffer_id,
    {
        &self.buffer_id
    }

    pub fn webgl_buffer(&self) -> (r: u64)
        ensures
            r == self.webgl_buffer,
    {
        self.webgl_buffer
    }
}

/// A resolved texture.
pub struct Texture {
    pub texture_id: String,
    pub webgl_texture: u64,
}

impl Texture {
    pub fn new(texture_id: String, webgl_texture: u64) -> (r: Self)
        ensures
            r.texture_id@ == texture_id@,
            r.webgl_texture == webgl_texture,
    {
        Texture { texture_id, webgl_texture }
    }

    pub fn texture_id(&self) -> (r: &String)
        ensures
            r == self.texture_id,
    {
        &self.texture_id
    }

    pub fn webgl_texture(&self) -> (r: u64)
        ensures
            r == self.webgl_texture,
    {
        self.webgl_texture
    }
}

/// A resolved framebuffer.
pub struct Framebuffer {
    pub framebuffer_id: String,
    pub webgl_framebuffer: u64,
}

impl Framebuffer {
    pub fn new(framebuffer_id: String, webgl_framebuffer: u64) -> (r: Self)
        ensures
            r.framebuffer_id@ == framebuffer_id@,
            r.webgl_framebuffer == webgl_framebuffer,
    {
        Framebuffer { framebuffer_id, webgl_framebuffer }
    }

    pub fn framebuffer_id(&self) -> (r: &String)
        ensures
            r == self.framebuffer_id,
    {
        &self.framebuffer_id
    }

    pub fn webgl_framebuffer(&self) -> (r: u64)
        ensures
            r == self.webgl_framebuffer,
    {
        self.webgl_framebuffer
    }
}

/// A resolved attribute: the same underlying buffer is bound into every
/// owning program's vertex array object, at the location resolved there.
pub struct Attribute {
    pub program_ids: Vec<String>,
    pub buffer_id: String,
    pub attribute_id: String,
    pub webgl_buffer: u64,
    pub attribute_locations: Table<String, u32>,
}

impl Attribute {
    pub fn new(
        program_ids: Vec<String>,
        buffer_id: String,
        attribute_id: String,
        webgl_buffer: u64,
        attribute_locations: Table<String, u32>,
    ) -> (r: Self)
        ensures
            r.program_ids@ == program_ids@,
            r.buffer_id@ == buffer_id@,
            r.attribute_id@ == attribute_id@,
            r.webgl_buffer == webgl_buffer,
            r.attribute_locations == attribute_locations,
    {
        Attribute { program_ids, buffer_id, attribute_id, webgl_buffer, attribute_locations }
    }

    pub fn program_ids(&self) -> (r: &Vec<String>)
        ensures
            r == self.program_ids,
    {
        &self.program_ids
    }

    pub fn buffer_id(&self) -> (r: &String)
        ensures
            r == self.buffer_id,
    {
        &self.buffer_id
    }

    pub fn attribute_id(&self) -> (r: &String)
        ensures
            r == self.attribute_id,
    {
        &self.attribute_id
    }

    pub fn webgl_buffer(&self) -> (r: u64)
        ensures
            r == self.webgl_buffer,
    {
        self.webgl_buffer
    }

    /// The location of this attribute in the given owning program.
    pub fn location(&self, program_id: &String) -> (r: Option<&u32>)
        requires
            self.attribute_locations.wf(),
        ensures
            match r {
                Some(l) => self.attribute_locations.contains_key(program_id@) && *l
                    == self.attribute_locations.spec_get(program_id@),
                None => !self.attribute_locations.contains_key(program_id@),
            },
    {
        self.attribute_locations.get(program_id)
    }
}

/// A resolved uniform: one location per owning program.
pub struct Uniform {
    pub program_ids: Vec<String>,
    pub uniform_id: String,
    pub uniform_locations: Table<String, u64>,
    pub use_init_callback_for_update: bool,
}

impl Uniform {
    pub fn new(
        program_ids: Vec<String>,
        uniform_id: String,
        uniform_locations: Table<String, u64>,
        use_init_callback_for_update: bool,
    ) -> (r: Self)
        ensures
            r.program_ids@ == program_ids@,
            r.uniform_id@ == uniform_id@,
            r.uniform_locations == uniform_locations,
            r.use_init_callback_for_update == use_init_callback_for_update,
    {
        Uniform { program_ids, uniform_id, uniform_locations, use_init_callback_for_update }
    }

    pub fn program_ids(&self) -> (r: &Vec<String>)
        ensures
            r == self.program_ids,
    {
        &self.program_ids
    }

    pub fn uniform_id(&self) -> (r: &String)
        ensures
            r == self.uniform_id,
    {
        &self.uniform_id
    }

    pub fn use_init_callback_for_update(&self) -> (r: bool)
        ensures
            r == self.use_init_callback_for_update,
    {
        self.use_init_callback_for_update
    }

    /// The location of this uniform in the given owning program.
    pub fn location(&self, program_id: &String) -> (r: Option<&u64>)
        requires
            self.uniform_locations.wf(),
        ensures
            match r {
                Some(l) => self.uniform_locations.contains_key(program_id@) && *l
                    == self.uniform_locations.spec_get(program_id@),
                None => !self.uniform_locations.contains_key(program_id@),
            },
    {
        self.uniform_locations.get(program_id)
    }
}

} // verus!
