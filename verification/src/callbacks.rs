//! The scene's behaviour: creation, update and render callbacks.
//!
//! Rather than attaching a closure to every link descriptor, the engine
//! collapses all behaviour into one value implementing `SceneCallbacks`,
//! dispatched by the identifier the builder hands in; the link records
//! stay pure data.  Each method receives the device, the device clock,
//! and the caller's mutable user context.
//!
//! Every method must leave the device in a state that `Gpu::extends`
//! relates to the one it was given: handles stay valid, linked programs
//! keep their snapshots, and the command log only grows.  Callbacks may
//! change the user context's value but never its presence: a context the
//! caller supplied stays supplied.  Creation callbacks may report
//! failure only when the device has run out of handles; the
//! program-creation callback may also reject a program that does not
//! link.

use vstd::prelude::*;

use crate::error::CreateProgramError;
use crate::gpu::Gpu;
use crate::renderer::Resources;

verus! {

pub trait SceneCallbacks: Sized {
    /// The caller's mutable state, shared with every callback.
    type Ctx;

    /// Creates and links the program for `program_id` from the two
    /// compiled shaders, capturing the given transform-feedback varyings.
    /// The default body follows the standard protocol: create, attach
    /// both shaders, record varyings, link, and surface the linker's
    /// diagnostic on failure.
    fn create_program(
        &self,
        gpu: &mut Gpu,
        now: u64,
        ctx: &mut Option<Self::Ctx>,
        vertex_shader: u64,
        fragment_shader: u64,
        transform_feedback_varyings: Vec<String>,
        program_id: &String,
    ) -> (r: Result<u64, CreateProgramError>)
        requires
            old(gpu).wf(),
            old(gpu).shaders().contains_key(vertex_shader),
            old(gpu).shaders().spec_get(vertex_shader).kind is Vertex,
            old(gpu).shaders().spec_get(vertex_shader).compiled,
            old(gpu).shaders().contains_key(fragment_shader),
            old(gpu).shaders().spec_get(fragment_shader).kind is Fragment,
            old(gpu).shaders().spec_get(fragment_shader).compiled,
        ensures
            Gpu::extends(*old(gpu), *final(gpu)),
            (*final(ctx)) is Some == (*old(ctx)) is Some,
            final(gpu).shaders() == old(gpu).shaders(),
            match r {
                Ok(p) => {
                    &&& final(gpu).programs().contains_key(p)
                    &&& final(gpu).programs().spec_get(p).linked
                    &&& final(gpu).programs().spec_get(p).vertex_source@ == old(
                        gpu,
                    ).shaders().spec_get(vertex_shader).source@
                    &&& final(gpu).programs().spec_get(p).fragment_source@ == old(
                        gpu,
                    ).shaders().spec_get(fragment_shader).source@
                },
                Err(e) => e is NoProgramReturned ==> final(gpu).spec_next_handle() == u64::MAX,
            },
    {
        let ghost g0 = *gpu;
        let p = match gpu.create_program() {
            Some(p) => p,
            None => {
                return Err(CreateProgramError::NoProgramReturned);
            },
        };
        let ghost g1 = *gpu;
        gpu.attach_shader(p, vertex_shader);
        let ghost g2 = *gpu;
        gpu.attach_shader(p, fragment_shader);
        let ghost g3 = *gpu;
        if transform_feedback_varyings.len() > 0 {
            gpu.transform_feedback_varyings(p, transform_feedback_varyings);
        }
        let ghost g4 = *gpu;
        gpu.link_program(p);
        proof {
            Gpu::lemma_extends_trans(g0, g1, g2);
            Gpu::lemma_extends_trans(g0, g2, g3);
            if g3 != g4 {
                Gpu::lemma_extends_trans(g0, g3, g4);
            }
            Gpu::lemma_extends_trans(g0, g4, *gpu);
        }
        if gpu.program_link_status(p) {
            Ok(p)
        } else {
            match gpu.program_info_log(p) {
                Some(log) => Err(CreateProgramError::LinkFailed(log)),
                None => Err(CreateProgramError::LinkFailedUnknown),
            }
        }
    }

    /// Creates and fills the buffer for `buffer_id`.  Returns `None`
    /// only when the device has run out of handles.  The default body
    /// creates an empty buffer.
    fn create_buffer(
        &self,
        gpu: &mut Gpu,
        now: u64,
        ctx: &mut Option<Self::Ctx>,
        buffer_id: &String,
    ) -> (r: Option<u64>)
        requires
            old(gpu).wf(),
        ensures
            Gpu::extends(*old(gpu), *final(gpu)),
            (*final(ctx)) is Some == (*old(ctx)) is Some,
            match r {
                Some(h) => final(gpu).buffers().contains_key(h),
                None => final(gpu).spec_next_handle() == u64::MAX,
            },
    {
        gpu.create_buffer()
    }

    /// Configures the vertex-attribute layout for one owning program.
    /// When it runs, the owning program's vertex array object and the
    /// attribute's buffer are bound and the slot is enabled; the body is
    /// expected to issue a `vertex_attrib_pointer` call.  The default
    /// body describes a tightly packed attribute at the given location.
    fn configure_attribute(
        &self,
        gpu: &mut Gpu,
        now: u64,
        ctx: &mut Option<Self::Ctx>,
        buffer: u64,
        location: u32,
        attribute_id: &String,
    )
        requires
            old(gpu).wf(),
        ensures
            Gpu::extends(*old(gpu), *final(gpu)),
            (*final(ctx)) is Some == (*old(ctx)) is Some,
    {
        gpu.vertex_attrib_pointer(location, 2, 0, 0);
    }

    /// Creates and fills the texture for `texture_id`.  Returns `None`
    /// only when the device has run out of handles.
    fn create_texture(
        &self,
        gpu: &mut Gpu,
        now: u64,
        ctx: &mut Option<Self::Ctx>,
        texture_id: &String,
    ) -> (r: Option<u64>)
        requires
            old(gpu).wf(),
        ensures
            Gpu::extends(*old(gpu), *final(gpu)),
            (*final(ctx)) is Some == (*old(ctx)) is Some,
            match r {
                Some(h) => final(gpu).textures().contains_key(h),
                None => final(gpu).spec_next_handle() == u64::MAX,
            },
    {
        gpu.create_texture()
    }

    /// Creates the framebuffer for `framebuffer_id`.  `texture` is the
    /// resolved handle of the link's texture, absent when the link
    /// declared none.  Returns `None` only when the device has run out
    /// of handles.  The default body attaches the texture when present.
    fn create_framebuffer(
        &self,
        gpu: &mut Gpu,
        now: u64,
        ctx: &mut Option<Self::Ctx>,
        texture: Option<u64>,
        framebuffer_id: &String,
    ) -> (r: Option<u64>)
        requires
            old(gpu).wf(),
            texture is Some ==> old(gpu).textures().contains_key(texture.unwrap()),
        ensures
            Gpu::extends(*old(gpu), *final(gpu)),
            (*final(ctx)) is Some == (*old(ctx)) is Some,
            match r {
                Some(h) => final(gpu).framebuffers().contains_key(h),
                None => final(gpu).spec_next_handle() == u64::MAX,
            },
    {
        let ghost g0 = *gpu;
        let fb = match gpu.create_framebuffer() {
            Some(fb) => fb,
            None => {
                return None;
            },
        };
        let ghost g1 = *gpu;
        if texture.is_some() {
            gpu.bind_framebuffer(Some(fb));
            let ghost g2 = *gpu;
            gpu.framebuffer_texture(texture);
            let ghost g3 = *gpu;
            gpu.bind_framebuffer(None);
            proof {
                Gpu::lemma_extends_trans(g1, g2, g3);
                Gpu::lemma_extends_trans(g1, g3, *gpu);
                Gpu::lemma_extends_trans(g0, g1, *gpu);
            }
        }
        Some(fb)
    }

    /// Gives the uniform its first value for one owning program.  When it
    /// runs, that program is active and `location` is the uniform's
    /// location in it.  The default body does nothing.
    fn initialize_uniform(
        &self,
        gpu: &mut Gpu,
        now: u64,
        ctx: &mut Option<Self::Ctx>,
        location: u64,
        uniform_id: &String,
    )
        requires
            old(gpu).wf(),
            old(gpu).spec_bound_program() is Some,
            old(gpu).programs().contains_key(old(gpu).spec_bound_program().unwrap()),
        ensures
            Gpu::extends(*old(gpu), *final(gpu)),
            (*final(ctx)) is Some == (*old(ctx)) is Some,
    {
        proof {
            Gpu::lemma_extends_refl(*gpu);
        }
    }

    /// Recomputes the uniform's value for one owning program.  Runs under
    /// the same conditions as `initialize_uniform`.  The default body
    /// does nothing.
    fn update_uniform(
        &self,
        gpu: &mut Gpu,
        now: u64,
        ctx: &mut Option<Self::Ctx>,
        location: u64,
        uniform_id: &String,
    )
        requires
            old(gpu).wf(),
            old(gpu).spec_bound_program() is Some,
            old(gpu).programs().contains_key(old(gpu).spec_bound_program().unwrap()),
        ensures
            Gpu::extends(*old(gpu), *final(gpu)),
            (*final(ctx)) is Some == (*old(ctx)) is Some,
    {
        proof {
            Gpu::lemma_extends_refl(*gpu);
        }
    }

    /// What `should_update_uniform` decides, at the spec level.  The
    /// default admits every update.
    open spec fn should_update_uniform_spec(
        &self,
        gpu: Gpu,
        now: u64,
        ctx: Option<Self::Ctx>,
        location: u64,
        uniform_id: Seq<char>,
    ) -> bool {
        true
    }

    /// Gates a uniform update: when it returns false, the update for
    /// that uniform and program is skipped and the device is left
    /// untouched.
    fn should_update_uniform(
        &self,
        gpu: &Gpu,
        now: u64,
        ctx: &Option<Self::Ctx>,
        location: u64,
        uniform_id: &String,
    ) -> (r: bool)
        requires
            gpu.wf(),
        ensures
            r == self.should_update_uniform_spec(*gpu, now, *ctx, location, uniform_id@),
    ;

    /// Draws a frame: receives the device and the renderer's resolved
    /// resource tables.  The default body does nothing.
    fn render(
        &self,
        gpu: &mut Gpu,
        resources: &Resources,
        ctx: &mut Option<Self::Ctx>,
    )
        requires
            old(gpu).wf(),
        ensures
            Gpu::extends(*old(gpu), *final(gpu)),
            (*final(ctx)) is Some == (*old(ctx)) is Some,
    {
        proof {
            Gpu::lemma_extends_refl(*gpu);
        }
    }

    /// Runs once per animation frame while the animation handle is
    /// animating.  The default body does nothing.
    fn animate(
        &self,
        gpu: &mut Gpu,
        now: u64,
        resources: &Resources,
        ctx: &mut Option<Self::Ctx>,
    )
        requires
            old(gpu).wf(),
        ensures
            Gpu::extends(*old(gpu), *final(gpu)),
            (*final(ctx)) is Some == (*old(ctx)) is Some,
    {
        proof {
            Gpu::lemma_extends_refl(*gpu);
        }
    }
}

/// A scene with no behaviour of its own: every creation callback keeps
/// the standard protocol, uniforms are always updated, and rendering
/// and animating issue no calls.  Useful as a base line and for wiring
/// tests.
pub struct StandardCallbacks;

impl SceneCallbacks for StandardCallbacks {
    type Ctx = ();

    fn should_update_uniform(
        &self,
        gpu: &Gpu,
        now: u64,
        ctx: &Option<()>,
        location: u64,
        uniform_id: &String,
    ) -> (r: bool) {
        true
    }
}

} // verus!
