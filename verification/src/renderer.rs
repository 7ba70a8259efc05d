//! The immutable renderer and the builder that produces it.
//!
//! `RendererBuilder` accumulates link descriptors and shader sources and
//! then resolves them in dependency order against the device: context,
//! shaders, programs (with one vertex array object each), buffers,
//! attributes, textures, framebuffers, uniforms, transform feedbacks.
//! Any failure aborts the whole build with one error; no partial
//! renderer is ever returned.  The resulting `Renderer` owns the device
//! and the resolved resource tables, which never change afterwards, and
//! drives the per-frame update/render protocol.

use vstd::prelude::*;

use crate::callbacks::SceneCallbacks;
use crate::canvas::{Canvas, ContextAttributes};
use crate::error::RendererBuilderError;
use crate::gpu::{attrib_location_in, log_has_activation_bracket, log_has_attribute_setup, source_compiles, uniform_location_in, Gpu, GpuCommand, ShaderKind};
use crate::source_text::has_word;
use vstd::utf8::encode_utf8;
use crate::links::{
    clone_strings, AttributeLink, BufferLink, FramebufferLink, ProgramLink, TextureLink,
    TransformFeedbackLink, UniformLink,
};
use crate::resources::{Attribute, Buffer, Framebuffer, Texture, Uniform};
use crate::table::{Table, TableKey};

verus! {

/// The renderer's resolved resource tables, keyed by the identifiers the
/// links were registered under.
pub struct Resources {
    pub vertex_shaders: Table<String, u64>,
    pub fragment_shaders: Table<String, u64>,
    pub programs: Table<String, u64>,
    pub vertex_array_objects: Table<String, u64>,
    pub buffers: Table<String, Buffer>,
    pub attributes: Table<String, Attribute>,
    pub uniforms: Table<String, Uniform>,
    pub textures: Table<String, Texture>,
    pub framebuffers: Table<String, Framebuffer>,
    pub transform_feedbacks: Table<String, u64>,
}

impl Resources {
    /// Every table is well formed and every stored handle is live in
    /// `gpu`; programs are linked, each with its vertex array object;
    /// every program a uniform names is resolved, with a location.
    pub open spec fn wf(self, gpu: Gpu) -> bool {
        &&& self.vertex_shaders.wf()
        &&& self.fragment_shaders.wf()
        &&& self.programs.wf()
        &&& self.vertex_array_objects.wf()
        &&& self.buffers.wf()
        &&& self.attributes.wf()
        &&& self.uniforms.wf()
        &&& self.textures.wf()
        &&& self.framebuffers.wf()
        &&& self.transform_feedbacks.wf()
        &&& forall|id: Seq<char>| #[trigger] self.vertex_shaders.contains_key(id)
            ==> gpu.shaders().contains_key(self.vertex_shaders.spec_get(id))
        &&& forall|id: Seq<char>| #[trigger] self.fragment_shaders.contains_key(id)
            ==> gpu.shaders().contains_key(self.fragment_shaders.spec_get(id))
        &&& forall|id: Seq<char>| #[trigger] self.programs.contains_key(id) ==> (
            gpu.programs().contains_key(self.programs.spec_get(id))
            && gpu.programs().spec_get(self.programs.spec_get(id)).linked
        )
        &&& forall|id: Seq<char>| #[trigger] self.vertex_array_objects.contains_key(id)
            ==> gpu.vaos().contains_key(self.vertex_array_objects.spec_get(id))
        &&& forall|id: Seq<char>| self.programs.contains_key(id)
            <==> #[trigger] self.vertex_array_objects.contains_key(id)
        &&& forall|id: Seq<char>| #[trigger] self.buffers.contains_key(id)
            ==> gpu.buffers().contains_key(self.buffers.spec_get(id).webgl_buffer)
        &&& forall|id: Seq<char>| #[trigger] self.textures.contains_key(id)
            ==> gpu.textures().contains_key(self.textures.spec_get(id).webgl_texture)
        &&& forall|id: Seq<char>| #[trigger] self.framebuffers.contains_key(id)
            ==> gpu.framebuffers().contains_key(self.framebuffers.spec_get(id).webgl_framebuffer)
        &&& forall|id: Seq<char>| #[trigger] self.transform_feedbacks.contains_key(id)
            ==> gpu.transform_feedbacks().contains_key(self.transform_feedbacks.spec_get(id))
        &&& forall|id: Seq<char>| #[trigger] self.attributes.contains_key(id)
            ==> self.attributes.spec_get(id).attribute_locations.wf()
        &&& forall|id: Seq<char>| #[trigger] self.uniforms.contains_key(id) ==> {
            let u = self.uniforms.spec_get(id);
            &&& u.uniform_locations.wf()
            &&& forall|j: int| 0 <= j < u.program_ids@.len() ==> (
                self.programs.contains_key(#[trigger] u.program_ids@[j]@)
                && u.uniform_locations.contains_key(u.program_ids@[j]@)
            )
        }
    }

    /// Resource well-formedness survives any device extension.
    pub proof fn lemma_wf_extends(self, pre: Gpu, post: Gpu)
        requires
            self.wf(pre),
            Gpu::extends(pre, post),
        ensures
            self.wf(post),
    {
    }
}

/// The immutable renderer: the device, the canvas it draws to, the
/// resolved resource tables, the scene's callbacks and the caller's
/// context.  The tables never change after the build; only device state
/// and the user context move.
pub struct Renderer<C: SceneCallbacks> {
    canvas: Canvas,
    gpu: Gpu,
    resources: Resources,
    render_callback: C,
    user_ctx: Option<C::Ctx>,
}

impl<C: SceneCallbacks> Renderer<C> {
    pub closed spec fn spec_canvas(self) -> Canvas {
        self.canvas
    }

    pub closed spec fn spec_gpu(self) -> Gpu {
        self.gpu
    }

    pub closed spec fn spec_resources(self) -> Resources {
        self.resources
    }

    pub closed spec fn spec_render_callback(self) -> C {
        self.render_callback
    }

    pub closed spec fn spec_user_ctx(self) -> Option<C::Ctx> {
        self.user_ctx
    }

    pub open spec fn wf(self) -> bool {
        &&& self.spec_gpu().wf()
        &&& self.spec_resources().wf(self.spec_gpu())
    }

    /// Assembles a renderer; the build pipeline is the only caller.
    pub(crate) fn assemble(
        canvas: Canvas,
        gpu: Gpu,
        resources: Resources,
        render_callback: C,
        user_ctx: Option<C::Ctx>,
    ) -> (r: Renderer<C>)
        requires
            gpu.wf(),
            resources.wf(gpu),
        ensures
            r.wf(),
            r.spec_canvas() == canvas,
            r.spec_gpu() == gpu,
            r.spec_resources() == resources,
            r.spec_render_callback() == render_callback,
            r.spec_user_ctx() == user_ctx,
    {
        Renderer { canvas, gpu, resources, render_callback, user_ctx }
    }

    pub fn canvas(&self) -> (r: &Canvas)
        ensures
            r == self.spec_canvas(),
    {
        &self.canvas
    }

    /// Read access to the device, for queries such as the command log.
    pub fn gpu(&self) -> (r: &Gpu)
        ensures
            r == self.spec_gpu(),
    {
        &self.gpu
    }

    pub fn resources(&self) -> (r: &Resources)
        ensures
            r == self.spec_resources(),
    {
        &self.resources
    }

    pub fn vertex_shaders(&self) -> (r: &Table<String, u64>)
        ensures
            r == self.spec_resources().vertex_shaders,
    {
        &self.resources.vertex_shaders
    }

    pub fn fragment_shaders(&self) -> (r: &Table<String, u64>)
        ensures
            r == self.spec_resources().fragment_shaders,
    {
        &self.resources.fragment_shaders
    }

    pub fn programs(&self) -> (r: &Table<String, u64>)
        ensures
            r == self.spec_resources().programs,
    {
        &self.resources.programs
    }

    pub fn vertex_array_objects(&self) -> (r: &Table<String, u64>)
        ensures
            r == self.spec_resources().vertex_array_objects,
    {
        &self.resources.vertex_array_objects
    }

    pub fn buffers(&self) -> (r: &Table<String, Buffer>)
        ensures
            r == self.spec_resources().buffers,
    {
        &self.resources.buffers
    }

    pub fn attributes(&self) -> (r: &Table<String, Attribute>)
        ensures
            r == self.spec_resources().attributes,
    {
        &self.resources.attributes
    }

    pub fn uniforms(&self) -> (r: &Table<String, Uniform>)
        ensures
            r == self.spec_resources().uniforms,
    {
        &self.resources.uniforms
    }

    pub fn textures(&self) -> (r: &Table<String, Texture>)
        ensures
            r == self.spec_resources().textures,
    {
        &self.resources.textures
    }

    pub fn framebuffers(&self) -> (r: &Table<String, Framebuffer>)
        ensures
            r == self.spec_resources().framebuffers,
    {
        &self.resources.framebuffers
    }

    pub fn transform_feedbacks(&self) -> (r: &Table<String, u64>)
        ensures
            r == self.spec_resources().transform_feedbacks,
    {
        &self.resources.transform_feedbacks
    }

    pub fn user_ctx(&self) -> (r: Option<&C::Ctx>)
        ensures
            match r {
                Some(c) => self.spec_user_ctx() is Some && *c == self.spec_user_ctx().unwrap(),
                None => self.spec_user_ctx() is None,
            },
    {
        self.user_ctx.as_ref()
    }

    /// Switches the device to the program registered under `program_id`
    /// and binds its vertex array object.  Asking for an unregistered id
    /// is a caller error, excluded by precondition.
    pub fn use_program_with_vao(&mut self, program_id: &String)
        requires
            old(self).wf(),
            old(self).spec_resources().programs.contains_key(program_id@),
        ensures
            final(self).wf(),
            Gpu::extends(old(self).spec_gpu(), final(self).spec_gpu()),
            final(self).spec_resources() == old(self).spec_resources(),
            final(self).spec_render_callback() == old(self).spec_render_callback(),
            final(self).spec_user_ctx() == old(self).spec_user_ctx(),
            final(self).spec_canvas() == old(self).spec_canvas(),
            final(self).spec_gpu().spec_bound_program() == Some(
                old(self).spec_resources().programs.spec_get(program_id@),
            ),
            final(self).spec_gpu().spec_bound_vao() == Some(
                old(self).spec_resources().vertex_array_objects.spec_get(program_id@),
            ),
            final(self).spec_gpu().log() == old(self).spec_gpu().log().push(
                crate::gpu::GpuCommand::UseProgram {
                    program: Some(old(self).spec_resources().programs.spec_get(program_id@)),
                },
            ).push(
                crate::gpu::GpuCommand::BindVertexArray {
                    vao: Some(
                        old(self).spec_resources().vertex_array_objects.spec_get(program_id@),
                    ),
                },
            ),
    {
        let ph = match self.resources.programs.get(program_id) {
            Some(ph) => *ph,
            None => {
                proof {
                    assert(false);
                }
                vstd::pervasive::unreached()
            },
        };
        let vao = match self.resources.vertex_array_objects.get(program_id) {
            Some(v) => *v,
            None => {
                proof {
                    assert(false);
                }
                vstd::pervasive::unreached()
            },
        };
        let ghost g0 = self.gpu;
        self.gpu.use_program(Some(ph));
        let ghost g1 = self.gpu;
        self.gpu.bind_vertex_array(Some(vao));
        proof {
            Gpu::lemma_extends_trans(g0, g1, self.gpu);
            self.resources.lemma_wf_extends(g0, self.gpu);
        }
    }

    /// Invokes the scene's render callback with the device and the
    /// resolved resource tables.
    pub fn render(&mut self)
        requires
            old(self).wf(),
        ensures
            final(self).wf(),
            Gpu::extends(old(self).spec_gpu(), final(self).spec_gpu()),
            final(self).spec_resources() == old(self).spec_resources(),
            final(self).spec_render_callback() == old(self).spec_render_callback(),
            final(self).spec_canvas() == old(self).spec_canvas(),
            final(self).spec_user_ctx() is Some == old(self).spec_user_ctx() is Some,
    {
        C::render(
            &self.render_callback,
            &mut self.gpu,
            &self.resources,
            &mut self.user_ctx,
        );
        proof {
            self.resources.lemma_wf_extends(old(self).spec_gpu(), self.gpu);
        }
    }

    /// Re-runs the stored update protocol for one uniform: for every
    /// owning program, unless the should-update predicate declines, the
    /// program is activated, the update callback (or the initialize
    /// callback, when the link asked for it) runs against the uniform's
    /// location there, and the program is deactivated again.  When the
    /// predicate declines, nothing happens at all for that program — the
    /// device is left untouched.
    pub fn update_uniform(&mut self, uniform_id: &String)
        requires
            old(self).wf(),
            old(self).spec_resources().uniforms.contains_key(uniform_id@),
        ensures
            final(self).wf(),
            Gpu::extends(old(self).spec_gpu(), final(self).spec_gpu()),
            final(self).spec_resources() == old(self).spec_resources(),
            final(self).spec_render_callback() == old(self).spec_render_callback(),
            final(self).spec_canvas() == old(self).spec_canvas(),
            final(self).spec_user_ctx() is Some == old(self).spec_user_ctx() is Some,
            // a predicate that declines everything leaves device and
            // context exactly as they were
            (forall|g: Gpu, c: Option<C::Ctx>, l: u64|
                !old(self).spec_render_callback().should_update_uniform_spec(
                    g,
                    old(self).spec_gpu().spec_time(),
                    c,
                    l,
                    uniform_id@,
                )) ==> (final(self).spec_gpu() == old(self).spec_gpu() && final(self).spec_user_ctx()
                == old(self).spec_user_ctx()),
            // a predicate that admits everything leaves, for each owning
            // program, the activation bracket of one update in the log
            (forall|g: Gpu, t: u64, c: Option<C::Ctx>, l: u64|
                old(self).spec_render_callback().should_update_uniform_spec(
                    g,
                    t,
                    c,
                    l,
                    uniform_id@,
                )) ==> forall|j: int|
                0 <= j < old(self).spec_resources().uniforms.spec_get(
                    uniform_id@,
                ).program_ids@.len() ==> log_has_activation_bracket(
                final(self).spec_gpu().log(),
                old(self).spec_gpu().log().len() as int,
                final(self).spec_gpu().log().len() as int,
                old(self).spec_resources().programs.spec_get(
                    #[trigger] old(self).spec_resources().uniforms.spec_get(
                        uniform_id@,
                    ).program_ids@[j]@,
                ),
            ),
    {
        let i = match self.resources.uniforms.find(uniform_id) {
            Some(i) => i,
            None => {
                proof {
                    assert(false);
                }
                vstd::pervasive::unreached()
            },
        };
        let n = self.resources.uniforms.value_at(i).program_ids.len();
        let ghost declines_all: bool = (forall|g: Gpu, c: Option<C::Ctx>, l: u64|
            !old(self).spec_render_callback().should_update_uniform_spec(
                g,
                old(self).spec_gpu().spec_time(),
                c,
                l,
                uniform_id@,
            ));
        let ghost admits_all: bool = (forall|g: Gpu, t: u64, c: Option<C::Ctx>, l: u64|
            old(self).spec_render_callback().should_update_uniform_spec(
                g,
                t,
                c,
                l,
                uniform_id@,
            ));
        proof {
            Gpu::lemma_extends_refl(self.spec_gpu());
        }
        let mut j: usize = 0;
        while j < n
            invariant
                self.wf(),
                Gpu::extends(old(self).spec_gpu(), self.spec_gpu()),
                self.spec_resources() == old(self).spec_resources(),
                self.spec_render_callback() == old(self).spec_render_callback(),
                self.spec_canvas() == old(self).spec_canvas(),
                self.spec_user_ctx() is Some == old(self).spec_user_ctx() is Some,
                old(self).spec_resources().uniforms.contains_key(uniform_id@),
                i < self.spec_resources().uniforms.spec_len(),
                self.spec_resources().uniforms.key_seq()[i as int] == uniform_id@,
                n == self.spec_resources().uniforms.entries_seq()[i as int].1.program_ids@.len(),
                j <= n,
                declines_all == (forall|g: Gpu, c: Option<C::Ctx>, l: u64|
                    !old(self).spec_render_callback().should_update_uniform_spec(
                        g,
                        old(self).spec_gpu().spec_time(),
                        c,
                        l,
                        uniform_id@,
                    )),
                declines_all ==> self.spec_gpu() == old(self).spec_gpu()
                    && self.spec_user_ctx() == old(self).spec_user_ctx(),
                admits_all == (forall|g: Gpu, t: u64, c: Option<C::Ctx>, l: u64|
                    old(self).spec_render_callback().should_update_uniform_spec(
                        g,
                        t,
                        c,
                        l,
                        uniform_id@,
                    )),
                admits_all ==> forall|j2: int| 0 <= j2 < j ==> log_has_activation_bracket(
                    self.spec_gpu().log(),
                    old(self).spec_gpu().log().len() as int,
                    self.spec_gpu().log().len() as int,
                    self.spec_resources().programs.spec_get(
                        #[trigger] self.spec_resources().uniforms.spec_get(
                            uniform_id@,
                        ).program_ids@[j2]@,
                    ),
                ),
            decreases n - j,
        {
            proof {
                let u = self.spec_resources().uniforms.entries_seq()[i as int].1;
                self.spec_resources().uniforms.lemma_get_at(uniform_id@, i as int);
                assert(self.spec_resources().uniforms.spec_get(uniform_id@) == u);
                assert(self.spec_resources().programs.contains_key(u.program_ids@[j as int]@)
                    && u.uniform_locations.contains_key(u.program_ids@[j as int]@));
            }
            let pid = self.resources.uniforms.value_at(i).program_ids[j].clone();
            let loc = match self.resources.uniforms.value_at(i).location(&pid) {
                Some(l) => *l,
                None => {
                    proof {
                        assert(false);
                    }
                    vstd::pervasive::unreached()
                },
            };
            let ph = match self.resources.programs.get(&pid) {
                Some(p) => *p,
                None => {
                    proof {
                        assert(false);
                    }
                    vstd::pervasive::unreached()
                },
            };
            let use_init = self.resources.uniforms.value_at(i).use_init_callback_for_update;
            let now = self.gpu.time();
            let should = C::should_update_uniform(
                &self.render_callback,
                &self.gpu,
                now,
                &self.user_ctx,
                loc,
                uniform_id,
            );
            if should {
                proof {
                    if declines_all {
                        assert(self.spec_gpu() == old(self).spec_gpu());
                        assert(now == old(self).spec_gpu().spec_time());
                        assert(!self.spec_render_callback().should_update_uniform_spec(
                            self.spec_gpu(),
                            now,
                            self.spec_user_ctx(),
                            loc,
                            uniform_id@,
                        ));
                        assert(false);
                    }
                }
                let ghost g0 = self.gpu;
                self.gpu.use_program(Some(ph));
                let ghost g1 = self.gpu;
                if use_init {
                    C::initialize_uniform(
                        &self.render_callback,
                        &mut self.gpu,
                        now,
                        &mut self.user_ctx,
                        loc,
                        uniform_id,
                    );
                } else {
                    C::update_uniform(
                        &self.render_callback,
                        &mut self.gpu,
                        now,
                        &mut self.user_ctx,
                        loc,
                        uniform_id,
                    );
                }
                let ghost g2 = self.gpu;
                self.gpu.use_program(None);
                proof {
                    Gpu::lemma_extends_trans(g0, g1, g2);
                    Gpu::lemma_extends_trans(g0, g2, self.gpu);
                    Gpu::lemma_extends_trans(old(self).spec_gpu(), g0, self.gpu);
                    self.resources.lemma_wf_extends(g0, self.gpu);
                    // the activation bracket just written
                    let lo = old(self).spec_gpu().log().len() as int;
                    let a = g0.log().len() as int;
                    let z = g2.log().len() as int;
                    Gpu::lemma_log_index_stable(g1, g2, a);
                    assert(self.spec_gpu().log()[a] == (GpuCommand::UseProgram {
                        program: Some(ph),
                    }));
                    assert(self.spec_gpu().log()[z] == (GpuCommand::UseProgram {
                        program: None,
                    }));
                    assert(log_has_activation_bracket(
                        self.spec_gpu().log(),
                        lo,
                        self.spec_gpu().log().len() as int,
                        ph,
                    )) by {
                        assert(lo <= a < z < self.spec_gpu().log().len());
                    }
                    // earlier owning programs' brackets survive
                    if admits_all {
                        assert forall|j2: int| 0 <= j2 < j implies log_has_activation_bracket(
                            self.spec_gpu().log(),
                            lo,
                            self.spec_gpu().log().len() as int,
                            self.spec_resources().programs.spec_get(
                                #[trigger] self.spec_resources().uniforms.spec_get(
                                    uniform_id@,
                                ).program_ids@[j2]@,
                            ),
                        ) by {
                            Gpu::lemma_activation_bracket_stable(
                                g0,
                                self.spec_gpu(),
                                lo,
                                g0.log().len() as int,
                                self.spec_resources().programs.spec_get(
                                    self.spec_resources().uniforms.spec_get(
                                        uniform_id@,
                                    ).program_ids@[j2]@,
                                ),
                            );
                        }
                    }
                }
            } else {
                proof {
                    if admits_all {
                        assert(self.spec_render_callback().should_update_uniform_spec(
                            self.spec_gpu(),
                            now,
                            self.spec_user_ctx(),
                            loc,
                            uniform_id@,
                        ));
                        assert(false);
                    }
                }
            }
            j += 1;
        }
    }

    /// Applies `update_uniform` to every registered uniform, in the
    /// order the uniform links were registered.
    pub fn update_uniforms(&mut self)
        requires
            old(self).wf(),
        ensures
            final(self).wf(),
            Gpu::extends(old(self).spec_gpu(), final(self).spec_gpu()),
            final(self).spec_resources() == old(self).spec_resources(),
            final(self).spec_render_callback() == old(self).spec_render_callback(),
            final(self).spec_canvas() == old(self).spec_canvas(),
            final(self).spec_user_ctx() is Some == old(self).spec_user_ctx() is Some,
            // a predicate that declines every update leaves device and
            // context exactly as they were
            (forall|g: Gpu, c: Option<C::Ctx>, l: u64, name: Seq<char>|
                !old(self).spec_render_callback().should_update_uniform_spec(
                    g,
                    old(self).spec_gpu().spec_time(),
                    c,
                    l,
                    name,
                )) ==> (final(self).spec_gpu() == old(self).spec_gpu() && final(self).spec_user_ctx()
                == old(self).spec_user_ctx()),
            // a predicate that admits everything leaves, for every
            // registered uniform and each owning program, an activation
            // bracket in the log
            (forall|g: Gpu, t: u64, c: Option<C::Ctx>, l: u64, name: Seq<char>|
                old(self).spec_render_callback().should_update_uniform_spec(g, t, c, l, name))
                ==> forall|i: int, j: int|
                0 <= i < old(self).spec_resources().uniforms.spec_len() && 0 <= j < old(
                    self,
                ).spec_resources().uniforms.entries_seq()[i].1.program_ids@.len()
                ==> log_has_activation_bracket(
                final(self).spec_gpu().log(),
                old(self).spec_gpu().log().len() as int,
                final(self).spec_gpu().log().len() as int,
                old(self).spec_resources().programs.spec_get(
                    #[trigger] old(self).spec_resources().uniforms.entries_seq()[
                        i
                    ].1.program_ids@[j]@,
                ),
            ),
    {
        let n = self.resources.uniforms.len();
        let ghost admits_all_names: bool = (forall|g: Gpu, t: u64, c: Option<C::Ctx>, l: u64, name: Seq<char>|
            old(self).spec_render_callback().should_update_uniform_spec(g, t, c, l, name));
        proof {
            Gpu::lemma_extends_refl(self.spec_gpu());
        }
        let mut i: usize = 0;
        while i < n
            invariant
                self.wf(),
                Gpu::extends(old(self).spec_gpu(), self.spec_gpu()),
                self.spec_resources() == old(self).spec_resources(),
                self.spec_render_callback() == old(self).spec_render_callback(),
                self.spec_canvas() == old(self).spec_canvas(),
                self.spec_user_ctx() is Some == old(self).spec_user_ctx() is Some,
                n == self.spec_resources().uniforms.spec_len(),
                i <= n,
                admits_all_names == (forall|g: Gpu, t: u64, c: Option<C::Ctx>, l: u64, name: Seq<char>|
                    old(self).spec_render_callback().should_update_uniform_spec(g, t, c, l, name)),
                admits_all_names ==> forall|i2: int, j2: int|
                    0 <= i2 < i && 0 <= j2 < self.spec_resources().uniforms.entries_seq()[
                        i2
                    ].1.program_ids@.len() ==> log_has_activation_bracket(
                    self.spec_gpu().log(),
                    old(self).spec_gpu().log().len() as int,
                    self.spec_gpu().log().len() as int,
                    self.spec_resources().programs.spec_get(
                        #[trigger] self.spec_resources().uniforms.entries_seq()[
                            i2
                        ].1.program_ids@[j2]@,
                    ),
                ),
                (forall|g: Gpu, c: Option<C::Ctx>, l: u64, name: Seq<char>|
                    !self.spec_render_callback().should_update_uniform_spec(
                        g,
                        old(self).spec_gpu().spec_time(),
                        c,
                        l,
                        name,
                    )) ==> (self.spec_gpu() == old(self).spec_gpu() && self.spec_user_ctx() == old(self).spec_user_ctx()),
            decreases n - i,
        {
            let id = self.resources.uniforms.key_at(i).key_dup();
            proof {
                assert(self.spec_resources().uniforms.key_seq().contains(id@)) by {
                    assert(self.spec_resources().uniforms.key_seq()[i as int] == id@);
                }
            }
            let ghost pre = *self;
            proof {
                self.spec_resources().uniforms.lemma_get_at(id@, i as int);
            }
            self.update_uniform(&id);
            proof {
                Gpu::lemma_extends_trans(old(self).spec_gpu(), pre.spec_gpu(), self.spec_gpu());
                if admits_all_names {
                    assert(forall|g: Gpu, t: u64, c: Option<C::Ctx>, l: u64|
                        pre.spec_render_callback().should_update_uniform_spec(g, t, c, l, id@));
                    let lo = old(self).spec_gpu().log().len() as int;
                    let mid = pre.spec_gpu().log().len() as int;
                    assert forall|i2: int, j2: int|
                        0 <= i2 < i + 1 && 0 <= j2 < self.spec_resources().uniforms.entries_seq()[
                            i2
                        ].1.program_ids@.len() implies log_has_activation_bracket(
                        self.spec_gpu().log(),
                        lo,
                        self.spec_gpu().log().len() as int,
                        self.spec_resources().programs.spec_get(
                            #[trigger] self.spec_resources().uniforms.entries_seq()[
                                i2
                            ].1.program_ids@[j2]@,
                        ),
                    ) by {
                        let p = self.spec_resources().programs.spec_get(
                            self.spec_resources().uniforms.entries_seq()[i2].1.program_ids@[j2]@,
                        );
                        if i2 < i {
                            Gpu::lemma_activation_bracket_stable(
                                pre.spec_gpu(),
                                self.spec_gpu(),
                                lo,
                                mid,
                                p,
                            );
                        } else {
                            assert(self.spec_resources().uniforms.entries_seq()[i2].1
                                == pre.spec_resources().uniforms.spec_get(id@));
                            assert(log_has_activation_bracket(
                                self.spec_gpu().log(),
                                mid,
                                self.spec_gpu().log().len() as int,
                                p,
                            ));
                            let (a, z) = choose|a: int, z: int|
                                mid <= a < z < self.spec_gpu().log().len()
                                    && self.spec_gpu().log()[a] == (GpuCommand::UseProgram {
                                    program: Some(p),
                                }) && self.spec_gpu().log()[z] == (GpuCommand::UseProgram {
                                    program: None,
                                });
                            assert(lo <= a < z < self.spec_gpu().log().len());
                        }
                    }
                }
                if (forall|g: Gpu, c: Option<C::Ctx>, l: u64, name: Seq<char>|
                    !pre.spec_render_callback().should_update_uniform_spec(
                        g,
                        old(self).spec_gpu().spec_time(),
                        c,
                        l,
                        name,
                    )) {
                    assert(pre.spec_gpu() == old(self).spec_gpu());
                    assert forall|g: Gpu, c: Option<C::Ctx>, l: u64|
                        !pre.spec_render_callback().should_update_uniform_spec(
                            g,
                            pre.spec_gpu().spec_time(),
                            c,
                            l,
                            id@,
                        )
                    by {
                        assert(!pre.spec_render_callback().should_update_uniform_spec(
                            g,
                            old(self).spec_gpu().spec_time(),
                            c,
                            l,
                            id@,
                        ));
                    }
                }
            }
            i += 1;
        }
    }

    /// A fresh builder.
    pub fn builder() -> (r: RendererBuilder<C>)
        ensures
            r.wf(),
            r.is_empty(),
    {
        RendererBuilder::new()
    }

    /// Advances the device clock and invokes the scene's per-frame
    /// animation callback.
    pub fn animate(&mut self, now: u64)
        requires
            old(self).wf(),
            now >= old(self).spec_gpu().spec_time(),
        ensures
            final(self).wf(),
            Gpu::extends(old(self).spec_gpu(), final(self).spec_gpu()),
            final(self).spec_gpu().spec_time() >= now,
            final(self).spec_resources() == old(self).spec_resources(),
            final(self).spec_render_callback() == old(self).spec_render_callback(),
            final(self).spec_canvas() == old(self).spec_canvas(),
            final(self).spec_user_ctx() is Some == old(self).spec_user_ctx() is Some,
    {
        let ghost g0 = self.gpu;
        self.gpu.set_time(now);
        let ghost g1 = self.gpu;
        C::animate(
            &self.render_callback,
            &mut self.gpu,
            now,
            &self.resources,
            &mut self.user_ctx,
        );
        proof {
            Gpu::lemma_extends_trans(g0, g1, self.gpu);
            self.resources.lemma_wf_extends(g0, self.gpu);
        }
    }
}

/// Accumulates link descriptors and shader sources, then resolves them
/// against the device in dependency order.  Registration never
/// validates; every check is deferred to `build`.  Registering under an
/// identifier already used for the same resource kind replaces the
/// earlier registration.
pub struct RendererBuilder<C: SceneCallbacks> {
    canvas: Option<Canvas>,
    context_attributes: ContextAttributes,
    vertex_shader_sources: Table<String, String>,
    fragment_shader_sources: Table<String, String>,
    program_links: Table<String, ProgramLink>,
    buffer_links: Table<String, BufferLink>,
    attribute_links: Table<String, AttributeLink>,
    uniform_links: Table<String, UniformLink>,
    texture_links: Table<String, TextureLink>,
    framebuffer_links: Table<String, FramebufferLink>,
    transform_feedback_links: Table<String, TransformFeedbackLink>,
    render_callback: Option<C>,
    user_ctx: Option<C::Ctx>,
}

impl<C: SceneCallbacks> RendererBuilder<C> {
    pub closed spec fn spec_canvas(self) -> Option<Canvas> {
        self.canvas
    }

    pub closed spec fn spec_context_attributes(self) -> ContextAttributes {
        self.context_attributes
    }

    pub closed spec fn spec_vertex_shader_sources(self) -> Table<String, String> {
        self.vertex_shader_sources
    }

    pub closed spec fn spec_fragment_shader_sources(self) -> Table<String, String> {
        self.fragment_shader_sources
    }

    pub closed spec fn spec_program_links(self) -> Table<String, ProgramLink> {
        self.program_links
    }

    pub closed spec fn spec_buffer_links(self) -> Table<String, BufferLink> {
        self.buffer_links
    }

    pub closed spec fn spec_attribute_links(self) -> Table<String, AttributeLink> {
        self.attribute_links
    }

    pub closed spec fn spec_uniform_links(self) -> Table<String, UniformLink> {
        self.uniform_links
    }

    pub closed spec fn spec_texture_links(self) -> Table<String, TextureLink> {
        self.texture_links
    }

    pub closed spec fn spec_framebuffer_links(self) -> Table<String, FramebufferLink> {
        self.framebuffer_links
    }

    pub closed spec fn spec_transform_feedback_links(self) -> Table<String, TransformFeedbackLink> {
        self.transform_feedback_links
    }

    pub closed spec fn spec_render_callback(self) -> Option<C> {
        self.render_callback
    }

    pub closed spec fn spec_user_ctx(self) -> Option<C::Ctx> {
        self.user_ctx
    }

    pub open spec fn wf(self) -> bool {
        &&& self.spec_vertex_shader_sources().wf()
        &&& self.spec_fragment_shader_sources().wf()
        &&& self.spec_program_links().wf()
        &&& self.spec_buffer_links().wf()
        &&& self.spec_attribute_links().wf()
        &&& self.spec_uniform_links().wf()
        &&& self.spec_texture_links().wf()
        &&& self.spec_framebuffer_links().wf()
        &&& self.spec_transform_feedback_links().wf()
    }

    pub open spec fn is_empty(self) -> bool {
        &&& self.spec_canvas() is None
        &&& !self.spec_context_attributes().spec_preserve_drawing_buffer()
        &&& self.spec_vertex_shader_sources().spec_len() == 0
        &&& self.spec_fragment_shader_sources().spec_len() == 0
        &&& self.spec_program_links().spec_len() == 0
        &&& self.spec_buffer_links().spec_len() == 0
        &&& self.spec_attribute_links().spec_len() == 0
        &&& self.spec_uniform_links().spec_len() == 0
        &&& self.spec_texture_links().spec_len() == 0
        &&& self.spec_framebuffer_links().spec_len() == 0
        &&& self.spec_transform_feedback_links().spec_len() == 0
        &&& self.spec_render_callback() is None
        &&& self.spec_user_ctx() is None
    }

    pub fn new() -> (r: Self)
        ensures
            r.wf(),
            r.is_empty(),
    {
        RendererBuilder {
            canvas: None,
            context_attributes: ContextAttributes::new(),
            vertex_shader_sources: Table::new(),
            fragment_shader_sources: Table::new(),
            program_links: Table::new(),
            buffer_links: Table::new(),
            attribute_links: Table::new(),
            uniform_links: Table::new(),
            texture_links: Table::new(),
            framebuffer_links: Table::new(),
            transform_feedback_links: Table::new(),
            render_callback: None,
            user_ctx: None,
        }
    }

    /// Stores the canvas the renderer will draw to.
    pub fn set_canvas(&mut self, canvas: Canvas)
        ensures
            final(self).spec_canvas() == Some(canvas),
            RendererBuilder::same_except_canvas(*old(self), *final(self)),
    {
        self.canvas = Some(canvas);
    }

    /// Stores the options used when the rendering context is acquired.
    pub fn set_context_attributes(&mut self, attributes: ContextAttributes)
        ensures
            final(self).spec_context_attributes() == attributes,
            final(self).spec_canvas() == old(self).spec_canvas(),
            RendererBuilder::same_links(*old(self), *final(self)),
            final(self).spec_render_callback() == old(self).spec_render_callback(),
            final(self).spec_user_ctx() == old(self).spec_user_ctx(),
    {
        self.context_attributes = attributes;
    }

    /// Everything but the canvas agrees.
    pub open spec fn same_except_canvas(pre: Self, post: Self) -> bool {
        &&& post.spec_context_attributes() == pre.spec_context_attributes()
        &&& RendererBuilder::same_links(pre, post)
        &&& post.spec_render_callback() == pre.spec_render_callback()
        &&& post.spec_user_ctx() == pre.spec_user_ctx()
    }

    /// All source and link tables agree.
    pub open spec fn same_links(pre: Self, post: Self) -> bool {
        &&& post.spec_vertex_shader_sources() == pre.spec_vertex_shader_sources()
        &&& post.spec_fragment_shader_sources() == pre.spec_fragment_shader_sources()
        &&& post.spec_program_links() == pre.spec_program_links()
        &&& post.spec_buffer_links() == pre.spec_buffer_links()
        &&& post.spec_attribute_links() == pre.spec_attribute_links()
        &&& post.spec_uniform_links() == pre.spec_uniform_links()
        &&& post.spec_texture_links() == pre.spec_texture_links()
        &&& post.spec_framebuffer_links() == pre.spec_framebuffer_links()
        &&& post.spec_transform_feedback_links() == pre.spec_transform_feedback_links()
    }

    /// Registers a vertex shader source under its identifier; a source
    /// already registered under the same identifier is replaced.
    pub fn add_vertex_shader_src(&mut self, id: String, source: String)
        requires
            old(self).wf(),
        ensures
            final(self).wf(),
            final(self).spec_vertex_shader_sources().contains_key(id@),
            final(self).spec_vertex_shader_sources().spec_get(id@) == source,
            forall|k: Seq<char>| k != id@ ==> #[trigger] final(self).spec_vertex_shader_sources()
                .contains_key(k) == old(self).spec_vertex_shader_sources().contains_key(k),
            forall|k: Seq<char>| k != id@ && old(self).spec_vertex_shader_sources().contains_key(k)
                ==> #[trigger] final(self).spec_vertex_shader_sources().spec_get(k) == old(self).spec_vertex_shader_sources().spec_get(k),
            final(self).spec_fragment_shader_sources() == old(self).spec_fragment_shader_sources(),
            final(self).spec_program_links() == old(self).spec_program_links(),
            final(self).spec_buffer_links() == old(self).spec_buffer_links(),
            final(self).spec_attribute_links() == old(self).spec_attribute_links(),
            final(self).spec_uniform_links() == old(self).spec_uniform_links(),
            final(self).spec_texture_links() == old(self).spec_texture_links(),
            final(self).spec_framebuffer_links() == old(self).spec_framebuffer_links(),
            final(self).spec_transform_feedback_links() == old(self).spec_transform_feedback_links(),
            final(self).spec_canvas() == old(self).spec_canvas(),
            final(self).spec_context_attributes() == old(self).spec_context_attributes(),
            final(self).spec_render_callback() == old(self).spec_render_callback(),
            final(self).spec_user_ctx() == old(self).spec_user_ctx(),
    {
        self.vertex_shader_sources.insert(id, source);
    }

    /// Registers a fragment shader source under its identifier; a source
    /// already registered under the same identifier is replaced.
    pub fn add_fragment_shader_src(&mut self, id: String, source: String)
        requires
            old(self).wf(),
        ensures
            final(self).wf(),
            final(self).spec_fragment_shader_sources().contains_key(id@),
            final(self).spec_fragment_shader_sources().spec_get(id@) == source,
            forall|k: Seq<char>| k != id@ ==> #[trigger] final(self).spec_fragment_shader_sources()
                .contains_key(k) == old(self).spec_fragment_shader_sources().contains_key(k),
            forall|k: Seq<char>| k != id@ && old(self).spec_fragment_shader_sources().contains_key(
                k,
            ) ==> #[trigger] final(self).spec_fragment_shader_sources().spec_get(k) == old(self).spec_fragment_shader_sources().spec_get(k),
            final(self).spec_vertex_shader_sources() == old(self).spec_vertex_shader_sources(),
            final(self).spec_program_links() == old(self).spec_program_links(),
            final(self).spec_buffer_links() == old(self).spec_buffer_links(),
            final(self).spec_attribute_links() == old(self).spec_attribute_links(),
            final(self).spec_uniform_links() == old(self).spec_uniform_links(),
            final(self).spec_texture_links() == old(self).spec_texture_links(),
            final(self).spec_framebuffer_links() == old(self).spec_framebuffer_links(),
            final(self).spec_transform_feedback_links() == old(self).spec_transform_feedback_links(),
            final(self).spec_canvas() == old(self).spec_canvas(),
            final(self).spec_context_attributes() == old(self).spec_context_attributes(),
            final(self).spec_render_callback() == old(self).spec_render_callback(),
            final(self).spec_user_ctx() == old(self).spec_user_ctx(),
    {
        self.fragment_shader_sources.insert(id, source);
    }

    /// Registers a program link, keyed by its program id; an earlier
    /// link with the same program id is replaced.
    pub fn add_program_link(&mut self, link: ProgramLink)
        requires
            old(self).wf(),
        ensures
            final(self).wf(),
            final(self).spec_program_links().contains_key(link.program_id@),
            final(self).spec_program_links().spec_get(link.program_id@) == link,
            forall|k: Seq<char>| k != link.program_id@ ==> #[trigger] final(self).spec_program_links().contains_key(k) == old(self).spec_program_links().contains_key(
                k,
            ),
            forall|k: Seq<char>| k != link.program_id@ && old(self).spec_program_links()
                .contains_key(k) ==> #[trigger] final(self).spec_program_links().spec_get(k) == old(self).spec_program_links().spec_get(k),
            final(self).spec_vertex_shader_sources() == old(self).spec_vertex_shader_sources(),
            final(self).spec_fragment_shader_sources() == old(self).spec_fragment_shader_sources(),
            final(self).spec_buffer_links() == old(self).spec_buffer_links(),
            final(self).spec_attribute_links() == old(self).spec_attribute_links(),
            final(self).spec_uniform_links() == old(self).spec_uniform_links(),
            final(self).spec_texture_links() == old(self).spec_texture_links(),
            final(self).spec_framebuffer_links() == old(self).spec_framebuffer_links(),
            final(self).spec_transform_feedback_links() == old(self).spec_transform_feedback_links(),
            final(self).spec_canvas() == old(self).spec_canvas(),
            final(self).spec_context_attributes() == old(self).spec_context_attributes(),
            final(self).spec_render_callback() == old(self).spec_render_callback(),
            final(self).spec_user_ctx() == old(self).spec_user_ctx(),
    {
        let key = link.program_id().clone();
        self.program_links.insert(key, link);
    }

    /// Registers a buffer link, keyed by its buffer id.
    pub fn add_buffer_link(&mut self, link: BufferLink)
        requires
            old(self).wf(),
        ensures
            final(self).wf(),
            final(self).spec_buffer_links().contains_key(link.buffer_id@),
            final(self).spec_buffer_links().spec_get(link.buffer_id@) == link,
            forall|k: Seq<char>| k != link.buffer_id@ ==> #[trigger] final(self).spec_buffer_links()
                .contains_key(k) == old(self).spec_buffer_links().contains_key(k),
            forall|k: Seq<char>| k != link.buffer_id@ && old(self).spec_buffer_links().contains_key(
                k,
            ) ==> #[trigger] final(self).spec_buffer_links().spec_get(k) == old(self).spec_buffer_links().spec_get(k),
            final(self).spec_vertex_shader_sources() == old(self).spec_vertex_shader_sources(),
            final(self).spec_fragment_shader_sources() == old(self).spec_fragment_shader_sources(),
            final(self).spec_program_links() == old(self).spec_program_links(),
            final(self).spec_attribute_links() == old(self).spec_attribute_links(),
            final(self).spec_uniform_links() == old(self).spec_uniform_links(),
            final(self).spec_texture_links() == old(self).spec_texture_links(),
            final(self).spec_framebuffer_links() == old(self).spec_framebuffer_links(),
            final(self).spec_transform_feedback_links() == old(self).spec_transform_feedback_links(),
            final(self).spec_canvas() == old(self).spec_canvas(),
            final(self).spec_context_attributes() == old(self).spec_context_attributes(),
            final(self).spec_render_callback() == old(self).spec_render_callback(),
            final(self).spec_user_ctx() == old(self).spec_user_ctx(),
    {
        let key = link.buffer_id().clone();
        self.buffer_links.insert(key, link);
    }

    /// Registers an attribute link, keyed by its attribute id.
    pub fn add_attribute_link(&mut self, link: AttributeLink)
        requires
            old(self).wf(),
        ensures
            final(self).wf(),
            final(self).spec_attribute_links().contains_key(link.attribute_id@),
            final(self).spec_attribute_links().spec_get(link.attribute_id@) == link,
            forall|k: Seq<char>| k != link.attribute_id@ ==> #[trigger] final(self).spec_attribute_links().contains_key(k) == old(self).spec_attribute_links()
                .contains_key(k),
            forall|k: Seq<char>| k != link.attribute_id@ && old(self).spec_attribute_links()
                .contains_key(k) ==> #[trigger] final(self).spec_attribute_links().spec_get(k)
                == old(self).spec_attribute_links().spec_get(k),
            final(self).spec_vertex_shader_sources() == old(self).spec_vertex_shader_sources(),
            final(self).spec_fragment_shader_sources() == old(self).spec_fragment_shader_sources(),
            final(self).spec_program_links() == old(self).spec_program_links(),
            final(self).spec_buffer_links() == old(self).spec_buffer_links(),
            final(self).spec_uniform_links() == old(self).spec_uniform_links(),
            final(self).spec_texture_links() == old(self).spec_texture_links(),
            final(self).spec_framebuffer_links() == old(self).spec_framebuffer_links(),
            final(self).spec_transform_feedback_links() == old(self).spec_transform_feedback_links(),
            final(self).spec_canvas() == old(self).spec_canvas(),
            final(self).spec_context_attributes() == old(self).spec_context_attributes(),
            final(self).spec_render_callback() == old(self).spec_render_callback(),
            final(self).spec_user_ctx() == old(self).spec_user_ctx(),
    {
        let key = link.attribute_id().clone();
        self.attribute_links.insert(key, link);
    }

    /// Registers a uniform link, keyed by its uniform id.
    pub fn add_uniform_link(&mut self, link: UniformLink)
        requires
            old(self).wf(),
        ensures
            final(self).wf(),
            final(self).spec_uniform_links().contains_key(link.uniform_id@),
            final(self).spec_uniform_links().spec_get(link.uniform_id@) == link,
            forall|k: Seq<char>| k != link.uniform_id@ ==> #[trigger] final(self).spec_uniform_links().contains_key(k) == old(self).spec_uniform_links().contains_key(
                k,
            ),
            forall|k: Seq<char>| k != link.uniform_id@ && old(self).spec_uniform_links()
                .contains_key(k) ==> #[trigger] final(self).spec_uniform_links().spec_get(k) == old(self).spec_uniform_links().spec_get(k),
            final(self).spec_vertex_shader_sources() == old(self).spec_vertex_shader_sources(),
            final(self).spec_fragment_shader_sources() == old(self).spec_fragment_shader_sources(),
            final(self).spec_program_links() == old(self).spec_program_links(),
            final(self).spec_buffer_links() == old(self).spec_buffer_links(),
            final(self).spec_attribute_links() == old(self).spec_attribute_links(),
            final(self).spec_texture_links() == old(self).spec_texture_links(),
            final(self).spec_framebuffer_links() == old(self).spec_framebuffer_links(),
            final(self).spec_transform_feedback_links() == old(self).spec_transform_feedback_links(),
            final(self).spec_canvas() == old(self).spec_canvas(),
            final(self).spec_context_attributes() == old(self).spec_context_attributes(),
            final(self).spec_render_callback() == old(self).spec_render_callback(),
            final(self).spec_user_ctx() == old(self).spec_user_ctx(),
    {
        let key = link.uniform_id().clone();
        self.uniform_links.insert(key, link);
    }

    /// Registers a texture link, keyed by its texture id.
    pub fn add_texture_link(&mut self, link: TextureLink)
        requires
            old(self).wf(),
        ensures
            final(self).wf(),
            final(self).spec_texture_links().contains_key(link.texture_id@),
            final(self).spec_texture_links().spec_get(link.texture_id@) == link,
            forall|k: Seq<char>| k != link.texture_id@ ==> #[trigger] final(self).spec_texture_links().contains_key(k) == old(self).spec_texture_links().contains_key(
                k,
            ),
            forall|k: Seq<char>| k != link.texture_id@ && old(self).spec_texture_links()
                .contains_key(k) ==> #[trigger] final(self).spec_texture_links().spec_get(k) == old(self).spec_texture_links().spec_get(k),
            final(self).spec_vertex_shader_sources() == old(self).spec_vertex_shader_sources(),
            final(self).spec_fragment_shader_sources() == old(self).spec_fragment_shader_sources(),
            final(self).spec_program_links() == old(self).spec_program_links(),
            final(self).spec_buffer_links() == old(self).spec_buffer_links(),
            final(self).spec_attribute_links() == old(self).spec_attribute_links(),
            final(self).spec_uniform_links() == old(self).spec_uniform_links(),
            final(self).spec_framebuffer_links() == old(self).spec_framebuffer_links(),
            final(self).spec_transform_feedback_links() == old(self).spec_transform_feedback_links(),
            final(self).spec_canvas() == old(self).spec_canvas(),
            final(self).spec_context_attributes() == old(self).spec_context_attributes(),
            final(self).spec_render_callback() == old(self).spec_render_callback(),
            final(self).spec_user_ctx() == old(self).spec_user_ctx(),
    {
        let key = link.texture_id().clone();
        self.texture_links.insert(key, link);
    }

    /// Registers a framebuffer link, keyed by its framebuffer id.
    pub fn add_framebuffer_link(&mut self, link: FramebufferLink)
        requires
            old(self).wf(),
        ensures
            final(self).wf(),
            final(self).spec_framebuffer_links().contains_key(link.framebuffer_id@),
            final(self).spec_framebuffer_links().spec_get(link.framebuffer_id@) == link,
            forall|k: Seq<char>| k != link.framebuffer_id@ ==> #[trigger] final(self).spec_framebuffer_links().contains_key(k) == old(self).spec_framebuffer_links()
                .contains_key(k),
            forall|k: Seq<char>| k != link.framebuffer_id@ && old(self).spec_framebuffer_links()
                .contains_key(k) ==> #[trigger] final(self).spec_framebuffer_links().spec_get(k)
                == old(self).spec_framebuffer_links().spec_get(k),
            final(self).spec_vertex_shader_sources() == old(self).spec_vertex_shader_sources(),
            final(self).spec_fragment_shader_sources() == old(self).spec_fragment_shader_sources(),
            final(self).spec_program_links() == old(self).spec_program_links(),
            final(self).spec_buffer_links() == old(self).spec_buffer_links(),
            final(self).spec_attribute_links() == old(self).spec_attribute_links(),
            final(self).spec_uniform_links() == old(self).spec_uniform_links(),
            final(self).spec_texture_links() == old(self).spec_texture_links(),
            final(self).spec_transform_feedback_links() == old(self).spec_transform_feedback_links(),
            final(self).spec_canvas() == old(self).spec_canvas(),
            final(self).spec_context_attributes() == old(self).spec_context_attributes(),
            final(self).spec_render_callback() == old(self).spec_render_callback(),
            final(self).spec_user_ctx() == old(self).spec_user_ctx(),
    {
        let key = link.framebuffer_id().clone();
        self.framebuffer_links.insert(key, link);
    }

    /// Registers a transform-feedback link, keyed by its id.
    pub fn add_transform_feedback_link(&mut self, link: TransformFeedbackLink)
        requires
            old(self).wf(),
        ensures
            final(self).wf(),
            final(self).spec_transform_feedback_links().contains_key(link.transform_feedback_id@),
            final(self).spec_transform_feedback_links().spec_get(link.transform_feedback_id@)
                == link,
            forall|k: Seq<char>| k != link.transform_feedback_id@ ==> #[trigger] final(self).spec_transform_feedback_links().contains_key(k) == old(self).spec_transform_feedback_links().contains_key(k),
            forall|k: Seq<char>| k != link.transform_feedback_id@ && old(self).spec_transform_feedback_links().contains_key(k) ==> #[trigger] final(self).spec_transform_feedback_links().spec_get(k) == old(self).spec_transform_feedback_links().spec_get(k),
            final(self).spec_vertex_shader_sources() == old(self).spec_vertex_shader_sources(),
            final(self).spec_fragment_shader_sources() == old(self).spec_fragment_shader_sources(),
            final(self).spec_program_links() == old(self).spec_program_links(),
            final(self).spec_buffer_links() == old(self).spec_buffer_links(),
            final(self).spec_attribute_links() == old(self).spec_attribute_links(),
            final(self).spec_uniform_links() == old(self).spec_uniform_links(),
            final(self).spec_texture_links() == old(self).spec_texture_links(),
            final(self).spec_framebuffer_links() == old(self).spec_framebuffer_links(),
            final(self).spec_canvas() == old(self).spec_canvas(),
            final(self).spec_context_attributes() == old(self).spec_context_attributes(),
            final(self).spec_render_callback() == old(self).spec_render_callback(),
            final(self).spec_user_ctx() == old(self).spec_user_ctx(),
    {
        let key = link.transform_feedback_id().clone();
        self.transform_feedback_links.insert(key, link);
    }

    /// Stores the scene's callbacks, including the per-frame render
    /// callback.
    pub fn set_render_callback(&mut self, render_callback: C)
        ensures
            final(self).spec_render_callback() == Some(render_callback),
            final(self).spec_canvas() == old(self).spec_canvas(),
            final(self).spec_context_attributes() == old(self).spec_context_attributes(),
            RendererBuilder::same_links(*old(self), *final(self)),
            final(self).spec_user_ctx() == old(self).spec_user_ctx(),
    {
        self.render_callback = Some(render_callback);
    }

    /// Stores arbitrary caller state that every callback can read and
    /// change.
    pub fn set_user_ctx(&mut self, ctx: C::Ctx)
        ensures
            final(self).spec_user_ctx() == Some(ctx),
            final(self).spec_canvas() == old(self).spec_canvas(),
            final(self).spec_context_attributes() == old(self).spec_context_attributes(),
            RendererBuilder::same_links(*old(self), *final(self)),
            final(self).spec_render_callback() == old(self).spec_render_callback(),
    {
        self.user_ctx = Some(ctx);
    }

    /// A canvas was supplied and can hand out a rendering context.
    pub open spec fn canvas_ready(self) -> bool {
        self.spec_canvas() is Some && self.spec_canvas().unwrap().spec_context_available()
    }

    pub open spec fn has_render_callback(self) -> bool {
        self.spec_render_callback() is Some
    }

    /// Every registered shader source is one the device compiler accepts.
    pub open spec fn sources_ok(self) -> bool {
        &&& forall|i: int| 0 <= i < self.spec_vertex_shader_sources().spec_len()
            ==> source_compiles(
            (#[trigger] self.spec_vertex_shader_sources().entries_seq()[i]).1@,
        )
        &&& forall|i: int| 0 <= i < self.spec_fragment_shader_sources().spec_len()
            ==> source_compiles(
            (#[trigger] self.spec_fragment_shader_sources().entries_seq()[i]).1@,
        )
    }

    /// Every program link names registered shader sources.
    pub open spec fn program_links_ok(self) -> bool {
        forall|i: int| 0 <= i < self.spec_program_links().spec_len() ==> {
            let link = (#[trigger] self.spec_program_links().entries_seq()[i]).1;
            &&& self.spec_vertex_shader_sources().contains_key(link.vertex_shader_id@)
            &&& self.spec_fragment_shader_sources().contains_key(link.fragment_shader_id@)
        }
    }

    /// The vertex source of the program registered under `program_id`;
    /// meaningful when the program link and its shader source resolve.
    pub open spec fn spec_vertex_source(self, program_id: Seq<char>) -> Seq<char> {
        self.spec_vertex_shader_sources().spec_get(
            self.spec_program_links().spec_get(program_id).vertex_shader_id@,
        )@
    }

    /// The fragment source of the program registered under `program_id`.
    pub open spec fn spec_fragment_source(self, program_id: Seq<char>) -> Seq<char> {
        self.spec_fragment_shader_sources().spec_get(
            self.spec_program_links().spec_get(program_id).fragment_shader_id@,
        )@
    }

    /// Every attribute link names a registered buffer.
    pub open spec fn attribute_buffer_refs_ok(self) -> bool {
        forall|i: int| 0 <= i < self.spec_attribute_links().spec_len()
            ==> self.spec_buffer_links().contains_key(
            (#[trigger] self.spec_attribute_links().entries_seq()[i]).1.buffer_id@,
        )
    }

    /// Every program an attribute link names is registered.
    pub open spec fn attribute_program_refs_ok(self) -> bool {
        forall|i: int| 0 <= i < self.spec_attribute_links().spec_len() ==> {
            let link = (#[trigger] self.spec_attribute_links().entries_seq()[i]).1;
            forall|j: int| 0 <= j < link.program_ids@.len()
                ==> self.spec_program_links().contains_key(#[trigger] link.program_ids@[j]@)
        }
    }

    /// Every attribute name is active in the vertex source of each
    /// registered owning program.
    pub open spec fn attribute_names_ok(self) -> bool {
        forall|i: int| 0 <= i < self.spec_attribute_links().spec_len() ==> {
            let link = (#[trigger] self.spec_attribute_links().entries_seq()[i]).1;
            forall|j: int| 0 <= j < link.program_ids@.len()
                ==> self.spec_program_links().contains_key(#[trigger] link.program_ids@[j]@)
                ==> has_word(
                    encode_utf8(self.spec_vertex_source(link.program_ids@[j]@)),
                    encode_utf8(link.attribute_id@),
                )
        }
    }

    /// Every program a uniform link names is registered.
    pub open spec fn uniform_program_refs_ok(self) -> bool {
        forall|i: int| 0 <= i < self.spec_uniform_links().spec_len() ==> {
            let link = (#[trigger] self.spec_uniform_links().entries_seq()[i]).1;
            forall|j: int| 0 <= j < link.program_ids@.len()
                ==> self.spec_program_links().contains_key(#[trigger] link.program_ids@[j]@)
        }
    }

    /// Every uniform name is active in at least one source snapshot of
    /// each registered owning program.
    pub open spec fn uniform_names_ok(self) -> bool {
        forall|i: int| 0 <= i < self.spec_uniform_links().spec_len() ==> {
            let link = (#[trigger] self.spec_uniform_links().entries_seq()[i]).1;
            forall|j: int| 0 <= j < link.program_ids@.len()
                ==> self.spec_program_links().contains_key(#[trigger] link.program_ids@[j]@)
                ==> uniform_location_in(
                    self.spec_vertex_source(link.program_ids@[j]@),
                    self.spec_fragment_source(link.program_ids@[j]@),
                    link.uniform_id@,
                ) is Some
        }
    }

    /// Every framebuffer link that names a texture names a registered
    /// one.
    pub open spec fn framebuffer_refs_ok(self) -> bool {
        forall|i: int| 0 <= i < self.spec_framebuffer_links().spec_len() ==> {
            let link = (#[trigger] self.spec_framebuffer_links().entries_seq()[i]).1;
            link.texture_id is Some ==> self.spec_texture_links().contains_key(
                link.texture_id.unwrap()@,
            )
        }
    }

    /// No cross-reference is missing, every source compiles, every
    /// attribute and uniform name is active where it must be, and canvas
    /// and render callback were supplied.
    pub open spec fn structure_ok(self) -> bool {
        &&& self.canvas_ready()
        &&& self.has_render_callback()
        &&& self.sources_ok()
        &&& self.program_links_ok()
        &&& self.attribute_buffer_refs_ok()
        &&& self.attribute_program_refs_ok()
        &&& self.attribute_names_ok()
        &&& self.uniform_program_refs_ok()
        &&& self.uniform_names_ok()
        &&& self.framebuffer_refs_ok()
    }

    /// No source and no link of any kind has been registered.
    pub open spec fn nothing_registered(self) -> bool {
        &&& self.spec_vertex_shader_sources().spec_len() == 0
        &&& self.spec_fragment_shader_sources().spec_len() == 0
        &&& self.spec_program_links().spec_len() == 0
        &&& self.spec_buffer_links().spec_len() == 0
        &&& self.spec_attribute_links().spec_len() == 0
        &&& self.spec_uniform_links().spec_len() == 0
        &&& self.spec_texture_links().spec_len() == 0
        &&& self.spec_framebuffer_links().spec_len() == 0
        &&& self.spec_transform_feedback_links().spec_len() == 0
    }

    /// Resolves every registration in dependency order — context,
    /// shaders, programs with their vertex array objects, buffers,
    /// attributes, textures, framebuffers, uniforms, transform
    /// feedbacks — and yields the renderer.  The first failure aborts
    /// the whole build; no partial renderer is returned.  The stage
    /// order is observable in the device's command log and in the order
    /// the creation callbacks touch the user context.
    ///
    /// On success every registered identifier is resolvable from the
    /// renderer's tables.  A build over well-structured registrations
    /// fails only when the device runs out of handles or a creation
    /// callback reports an error.
    #[verifier::rlimit(100)]
    pub fn build(self) -> (r: Result<Renderer<C>, RendererBuilderError>)
        requires
            self.wf(),
        ensures
            match r {
                Ok(renderer) => {
                    &&& renderer.wf()
                    &&& self.structure_ok()
                    &&& renderer.spec_canvas() == self.spec_canvas().unwrap()
                    &&& renderer.spec_render_callback() == self.spec_render_callback().unwrap()
                    &&& renderer.spec_user_ctx() is Some == self.spec_user_ctx() is Some
                    &&& renderer.spec_resources().vertex_shaders.key_seq() == self
                        .spec_vertex_shader_sources().key_seq()
                    &&& renderer.spec_resources().fragment_shaders.key_seq() == self
                        .spec_fragment_shader_sources().key_seq()
                    &&& renderer.spec_resources().programs.key_seq() == self.spec_program_links()
                        .key_seq()
                    &&& renderer.spec_resources().vertex_array_objects.key_seq() == self
                        .spec_program_links().key_seq()
                    &&& renderer.spec_resources().buffers.key_seq() == self.spec_buffer_links()
                        .key_seq()
                    &&& renderer.spec_resources().attributes.key_seq() == self
                        .spec_attribute_links().key_seq()
                    &&& renderer.spec_resources().uniforms.key_seq() == self.spec_uniform_links()
                        .key_seq()
                    &&& renderer.spec_resources().textures.key_seq() == self.spec_texture_links()
                        .key_seq()
                    &&& renderer.spec_resources().framebuffers.key_seq() == self
                        .spec_framebuffer_links().key_seq()
                    &&& renderer.spec_resources().transform_feedbacks.key_seq() == self
                        .spec_transform_feedback_links().key_seq()
                    &&& forall|id: Seq<char>|
                        #[trigger] renderer.spec_resources().attributes.contains_key(id) ==> {
                            let a = renderer.spec_resources().attributes.spec_get(id);
                            let link = self.spec_attribute_links().spec_get(id);
                            &&& a.program_ids@ == link.program_ids@
                            &&& a.buffer_id@ == link.buffer_id@
                            &&& forall|j: int| 0 <= j < a.program_ids@.len() ==> (
                                a.attribute_locations.contains_key(#[trigger] a.program_ids@[j]@)
                                && a.attribute_locations.spec_get(a.program_ids@[j]@) as int
                                    == attrib_location_in(
                                    self.spec_vertex_source(a.program_ids@[j]@),
                                    link.attribute_id@,
                                )
                            )
                            &&& forall|p: Seq<char>|
                                #[trigger] a.attribute_locations.contains_key(p)
                                ==> exists|j: int| 0 <= j < a.program_ids@.len()
                                && a.program_ids@[j]@ == p
                        }
                    &&& forall|id: Seq<char>|
                        #[trigger] renderer.spec_resources().uniforms.contains_key(id) ==> {
                            let u = renderer.spec_resources().uniforms.spec_get(id);
                            let link = self.spec_uniform_links().spec_get(id);
                            &&& u.program_ids@ == link.program_ids@
                            &&& u.use_init_callback_for_update == link.use_init_callback_for_update
                            &&& forall|j: int| 0 <= j < u.program_ids@.len() ==> (
                                u.uniform_locations.contains_key(#[trigger] u.program_ids@[j]@)
                                && Some(u.uniform_locations.spec_get(u.program_ids@[j]@))
                                    == uniform_location_in(
                                    self.spec_vertex_source(u.program_ids@[j]@),
                                    self.spec_fragment_source(u.program_ids@[j]@),
                                    link.uniform_id@,
                                )
                            )
                            &&& forall|p: Seq<char>|
                                #[trigger] u.uniform_locations.contains_key(p)
                                ==> exists|j: int| 0 <= j < u.program_ids@.len()
                                && u.program_ids@[j]@ == p
                        }
                },
                Err(e) => {
                    &&& (e is CanvasReturnedNoContext ==> self.spec_canvas() is None)
                    &&& (e is WebGL2ContextNotFoundError ==> self.spec_canvas() is Some
                        && !self.spec_canvas().unwrap().spec_context_available())
                    &&& (e is KnownErrorCompileShaderError ==> !self.sources_ok())
                    &&& (e is VertexShaderNotFoundLinkProgramError
                        || e is FragmentShaderNotFoundLinkProgramError
                        ==> !self.program_links_ok())
                    &&& (e is NoRenderCallbackBuildError ==> !self.has_render_callback())
                    &&& (e is BufferNotFoundCreateAttributeError
                        ==> !self.attribute_buffer_refs_ok())
                    &&& (e is ProgramNotFoundCreateAttributeError
                        ==> !self.attribute_program_refs_ok())
                    &&& (e is AttributeLocationNotFoundCreateAttributeError
                        ==> !self.attribute_names_ok())
                    &&& (e is ProgramNotFoundBuildUniformsError
                        ==> !self.uniform_program_refs_ok())
                    &&& (e is UniformLocationNotFoundBuildUniformsError
                        ==> !self.uniform_names_ok())
                    &&& (e is TextureNotFoundCreateFramebufferError
                        ==> !self.framebuffer_refs_ok())
                },
            },
            self.spec_canvas() is None ==> r is Err && r->Err_0 is CanvasReturnedNoContext,
            (self.spec_canvas() is Some && !self.spec_canvas().unwrap().spec_context_available())
                ==> r is Err && r->Err_0 is WebGL2ContextNotFoundError,
            self.structure_ok() ==> (r is Ok || (r is Err
                && r->Err_0.is_device_or_callback_decided())),
            // with nothing registered, no stage can fail: success is owed
            (self.canvas_ready() && self.has_render_callback() && self.nothing_registered())
                ==> r is Ok,
            // a source the compiler rejects fails the build before any
            // callback runs
            (self.canvas_ready() && !self.sources_ok()) ==> (r is Err
                && (r->Err_0 is KnownErrorCompileShaderError
                || r->Err_0 is NoShaderReturnedCompilerShaderError)),
            // a missing render callback fails the build right after the
            // shaders compile
            (self.canvas_ready() && self.sources_ok() && !self.has_render_callback()) ==> (r is Err
                && (r->Err_0 is NoRenderCallbackBuildError
                || r->Err_0 is NoShaderReturnedCompilerShaderError)),
            // an attribute link naming an unregistered program is never
            // skipped silently
            (self.canvas_ready() && self.has_render_callback() && self.sources_ok()
                && self.program_links_ok() && self.attribute_buffer_refs_ok()
                && self.attribute_names_ok() && !self.attribute_program_refs_ok()) ==> (r is Err
                && (r->Err_0 is ProgramNotFoundCreateAttributeError
                || r->Err_0.is_device_or_callback_decided())),
            // an attribute name absent from its program's sources fails
            // the build
            (self.canvas_ready() && self.has_render_callback() && self.sources_ok()
                && self.program_links_ok() && self.attribute_buffer_refs_ok()
                && self.attribute_program_refs_ok() && !self.attribute_names_ok()) ==> (r is Err
                && (r->Err_0 is AttributeLocationNotFoundCreateAttributeError
                || r->Err_0.is_device_or_callback_decided())),
            // a framebuffer link naming an unregistered texture fails
            // the build
            (self.canvas_ready() && self.has_render_callback() && self.sources_ok()
                && self.program_links_ok() && self.attribute_buffer_refs_ok()
                && self.attribute_program_refs_ok() && self.attribute_names_ok()
                && !self.framebuffer_refs_ok()) ==> (r is Err
                && (r->Err_0 is TextureNotFoundCreateFramebufferError
                || r->Err_0.is_device_or_callback_decided())),
            // a uniform name absent from its program's sources fails the
            // build
            (self.canvas_ready() && self.has_render_callback() && self.sources_ok()
                && self.program_links_ok() && self.attribute_buffer_refs_ok()
                && self.attribute_program_refs_ok() && self.attribute_names_ok()
                && self.framebuffer_refs_ok() && self.uniform_program_refs_ok()
                && !self.uniform_names_ok()) ==> (r is Err
                && (r->Err_0 is UniformLocationNotFoundBuildUniformsError
                || r->Err_0.is_device_or_callback_decided())),
    {
        let ghost b = self;
        let RendererBuilder {
            canvas: canvas_opt,
            context_attributes,
            vertex_shader_sources,
            fragment_shader_sources,
            program_links,
            buffer_links,
            attribute_links,
            uniform_links,
            texture_links,
            framebuffer_links,
            transform_feedback_links,
            render_callback,
            user_ctx: user_ctx_opt,
        } = self;
        proof {
            assert(vertex_shader_sources == b.spec_vertex_shader_sources());
            assert(fragment_shader_sources == b.spec_fragment_shader_sources());
            assert(program_links == b.spec_program_links());
            assert(buffer_links == b.spec_buffer_links());
            assert(attribute_links == b.spec_attribute_links());
            assert(uniform_links == b.spec_uniform_links());
            assert(texture_links == b.spec_texture_links());
            assert(framebuffer_links == b.spec_framebuffer_links());
            assert(transform_feedback_links == b.spec_transform_feedback_links());
        }
        let canvas = match canvas_opt {
            Some(c) => c,
            None => {
                return Err(RendererBuilderError::CanvasReturnedNoContext);
            },
        };
        let mut gpu = match Gpu::from_canvas(&canvas, &context_attributes) {
            Some(g) => g,
            None => {
                return Err(RendererBuilderError::WebGL2ContextNotFoundError);
            },
        };
        let mut user_ctx = user_ctx_opt;
        let fragment_shaders = match compile_shaders_stage(
            &mut gpu,
            &fragment_shader_sources,
            ShaderKind::Fragment,
        ) {
            Ok(t) => t,
            Err(e) => {
                return Err(e);
            },
        };
        let ghost g_fs = gpu;
        let vertex_shaders = match compile_shaders_stage(
            &mut gpu,
            &vertex_shader_sources,
            ShaderKind::Vertex,
        ) {
            Ok(t) => t,
            Err(e) => {
                return Err(e);
            },
        };
        let ghost g_vs = gpu;
        proof {
            assert(b.sources_ok());
        }
        let cb = match render_callback {
            Some(cb) => cb,
            None => {
                return Err(RendererBuilderError::NoRenderCallbackBuildError);
            },
        };
        proof {
            assert(b.has_render_callback());
        }
        let out = match link_programs_stage(
            &mut gpu,
            &cb,
            &mut user_ctx,
            &program_links,
            &vertex_shaders,
            &fragment_shaders,
        ) {
            Ok(t) => t,
            Err(e) => {
                proof {
                    if e is VertexShaderNotFoundLinkProgramError
                        || e is FragmentShaderNotFoundLinkProgramError {
                        assert(!b.program_links_ok());
                    }
                }
                return Err(e);
            },
        };
        let (programs, vertex_array_objects) = out;
        let ghost g_pr = gpu;
        proof {
            // each resolved program's snapshots are the registered
            // sources of its link
            assert forall|pid: Seq<char>| #[trigger] programs.contains_key(pid) implies {
                let ph = programs.spec_get(pid);
                &&& gpu.programs().contains_key(ph)
                &&& gpu.programs().spec_get(ph).linked
                &&& b.spec_program_links().contains_key(pid)
                &&& gpu.programs().spec_get(ph).vertex_source@ == b.spec_vertex_source(pid)
                &&& gpu.programs().spec_get(ph).fragment_source@ == b.spec_fragment_source(pid)
            } by {
                let link = program_links.spec_get(pid);
                assert(vertex_shaders.contains_key(link.vertex_shader_id@));
                assert(fragment_shaders.contains_key(link.fragment_shader_id@));
                let vh = vertex_shaders.spec_get(link.vertex_shader_id@);
                let fh = fragment_shaders.spec_get(link.fragment_shader_id@);
                assert(g_vs.shaders().spec_get(vh).source@ == vertex_shader_sources.spec_get(
                    link.vertex_shader_id@,
                )@);
                assert(g_fs.shaders().contains_key(fh));
                assert(g_vs.shaders().spec_get(fh) == g_fs.shaders().spec_get(fh));
                assert(g_fs.shaders().spec_get(fh).source@ == fragment_shader_sources.spec_get(
                    link.fragment_shader_id@,
                )@);
            }
        }
        let buffers = match create_buffers_stage(&mut gpu, &cb, &mut user_ctx, &buffer_links) {
            Ok(t) => t,
            Err(e) => {
                return Err(e);
            },
        };
        let ghost g_bu = gpu;
        proof {
            Gpu::lemma_extends_refl(gpu);
            // transport program facts across the buffer stage
            assert forall|pid: Seq<char>| #[trigger] programs.contains_key(pid) implies {
                let ph = programs.spec_get(pid);
                &&& gpu.programs().contains_key(ph)
                &&& gpu.programs().spec_get(ph).linked
                &&& gpu.programs().spec_get(ph).vertex_source@ == b.spec_vertex_source(pid)
                &&& gpu.programs().spec_get(ph).fragment_source@ == b.spec_fragment_source(pid)
            } by {
                let ph = programs.spec_get(pid);
                assert(g_pr.programs().contains_key(ph));
                assert(g_pr.programs().spec_get(ph).linked);
                assert(Gpu::extends(g_pr, gpu));
            }
            assert forall|id: Seq<char>| #[trigger] vertex_array_objects.contains_key(id) implies
                gpu.vaos().contains_key(vertex_array_objects.spec_get(id))
            by {
                assert(g_pr.vaos().contains_key(vertex_array_objects.spec_get(id)));
            }
            // the attribute stage's structural conditions follow from
            // the builder-level ones
            if b.attribute_buffer_refs_ok() && b.attribute_program_refs_ok()
                && b.attribute_names_ok() {
                assert forall|i: int| 0 <= i < attribute_links.spec_len() implies {
                    let link = (#[trigger] attribute_links.entries_seq()[i]).1;
                    &&& buffers.contains_key(link.buffer_id@)
                    &&& forall|j: int| 0 <= j < link.program_ids@.len() ==> {
                        let pid = #[trigger] link.program_ids@[j]@;
                        &&& programs.contains_key(pid)
                        &&& has_word(
                            encode_utf8(
                                gpu.programs().spec_get(programs.spec_get(pid)).vertex_source@,
                            ),
                            encode_utf8(link.attribute_id@),
                        )
                    }
                } by {
                    let link = attribute_links.entries_seq()[i].1;
                    assert(buffer_links.contains_key(link.buffer_id@));
                    assert forall|j: int| 0 <= j < link.program_ids@.len() implies {
                        let pid = #[trigger] link.program_ids@[j]@;
                        &&& programs.contains_key(pid)
                        &&& has_word(
                            encode_utf8(
                                gpu.programs().spec_get(programs.spec_get(pid)).vertex_source@,
                            ),
                            encode_utf8(link.attribute_id@),
                        )
                    } by {
                        let pid = link.program_ids@[j]@;
                        assert(program_links.contains_key(pid));
                        assert(programs.contains_key(pid));
                        assert(gpu.programs().spec_get(programs.spec_get(pid)).vertex_source@
                            == b.spec_vertex_source(pid));
                    }
                }
                assert(attributes_stage_ok(gpu, attribute_links, programs, buffers));
            }
        }
        let ghost g_at_entry = gpu;
        let attributes = match create_attributes_stage(
            &mut gpu,
            &cb,
            &mut user_ctx,
            &attribute_links,
            &programs,
            &vertex_array_objects,
            &buffers,
        ) {
            Ok(t) => t,
            Err(e) => {
                proof {
                    if e is BufferNotFoundCreateAttributeError {
                        let i = choose|i: int|
                            0 <= i < attribute_links.spec_len() && !buffers.contains_key(
                                attribute_links.entries_seq()[i].1.buffer_id@,
                            );
                        assert(!buffer_links.contains_key(
                            attribute_links.entries_seq()[i].1.buffer_id@,
                        ));
                        assert(!b.attribute_buffer_refs_ok());
                    }
                    if e is ProgramNotFoundCreateAttributeError {
                        let (i, j) = choose|i: int, j: int|
                            0 <= i < attribute_links.spec_len()
                            && 0 <= j < attribute_links.entries_seq()[i].1.program_ids@.len()
                            && !programs.contains_key(
                                attribute_links.entries_seq()[i].1.program_ids@[j]@,
                            );
                        assert(!program_links.contains_key(
                            attribute_links.entries_seq()[i].1.program_ids@[j]@,
                        ));
                        assert(!b.attribute_program_refs_ok());
                    }
                    if e is AttributeLocationNotFoundCreateAttributeError {
                        let (i, j) = choose|i: int, j: int|
                            0 <= i < attribute_links.spec_len()
                            && 0 <= j < attribute_links.entries_seq()[i].1.program_ids@.len()
                            && programs.contains_key(
                                #[trigger] attribute_links.entries_seq()[i].1.program_ids@[j]@,
                            )
                            && !has_word(
                                encode_utf8(
                                    g_at_entry.programs().spec_get(
                                        programs.spec_get(
                                            attribute_links.entries_seq()[i].1.program_ids@[j]@,
                                        ),
                                    ).vertex_source@,
                                ),
                                encode_utf8(attribute_links.entries_seq()[i].1.attribute_id@),
                            );
                        let link = attribute_links.entries_seq()[i].1;
                        let pid = attribute_links.entries_seq()[i].1.program_ids@[j]@;
                        assert(g_at_entry.programs().spec_get(
                            programs.spec_get(pid),
                        ).vertex_source@ == b.spec_vertex_source(pid));
                        assert(program_links.contains_key(pid));
                        assert(!b.attribute_names_ok());
                    }
                }
                return Err(e);
            },
        };
        let ghost g_at = gpu;
        proof {
            // a successful attribute stage certifies the builder-level
            // attribute conditions
            assert(attributes_stage_ok(g_at_entry, attribute_links, programs, buffers));
            assert(b.attribute_buffer_refs_ok()) by {
                assert forall|i: int| 0 <= i < b.spec_attribute_links().spec_len() implies
                    b.spec_buffer_links().contains_key(
                        (#[trigger] b.spec_attribute_links().entries_seq()[i]).1.buffer_id@,
                    )
                by {
                    assert(buffers.contains_key(attribute_links.entries_seq()[i].1.buffer_id@));
                }
            }
            assert(b.attribute_program_refs_ok() && b.attribute_names_ok()) by {
                assert forall|i: int, j: int|
                    0 <= i < attribute_links.spec_len()
                    && 0 <= j < attribute_links.entries_seq()[i].1.program_ids@.len() implies {
                    let link = attribute_links.entries_seq()[i].1;
                    let pid = #[trigger] attribute_links.entries_seq()[i].1.program_ids@[j]@;
                    &&& program_links.contains_key(pid)
                    &&& has_word(
                        encode_utf8(b.spec_vertex_source(pid)),
                        encode_utf8(link.attribute_id@),
                    )
                } by {
                    let link = attribute_links.entries_seq()[i].1;
                    let pid = attribute_links.entries_seq()[i].1.program_ids@[j]@;
                    assert(programs.contains_key(pid));
                    assert(g_at_entry.programs().spec_get(programs.spec_get(pid)).vertex_source@
                        == b.spec_vertex_source(pid));
                }
            }
        }
        let textures = match create_textures_stage(&mut gpu, &cb, &mut user_ctx, &texture_links) {
            Ok(t) => t,
            Err(e) => {
                return Err(e);
            },
        };
        let ghost g_tx = gpu;
        let framebuffers = match create_framebuffers_stage(
            &mut gpu,
            &cb,
            &mut user_ctx,
            &framebuffer_links,
            &textures,
        ) {
            Ok(t) => t,
            Err(e) => {
                proof {
                    if e is TextureNotFoundCreateFramebufferError {
                        let i = choose|i: int|
                            0 <= i < framebuffer_links.spec_len()
                            && (#[trigger] framebuffer_links.entries_seq()[i]).1.texture_id
                                is Some
                            && !textures.contains_key(
                                framebuffer_links.entries_seq()[i].1.texture_id.unwrap()@,
                            );
                        assert(!texture_links.contains_key(
                            framebuffer_links.entries_seq()[i].1.texture_id.unwrap()@,
                        ));
                        assert(!b.framebuffer_refs_ok());
                    }
                }
                return Err(e);
            },
        };
        let ghost g_fb = gpu;
        proof {
            assert(b.framebuffer_refs_ok()) by {
                assert forall|i: int| 0 <= i < framebuffer_links.spec_len() implies {
                    let link = (#[trigger] framebuffer_links.entries_seq()[i]).1;
                    link.texture_id is Some ==> texture_links.contains_key(
                        link.texture_id.unwrap()@,
                    )
                } by {
                    let link = framebuffer_links.entries_seq()[i].1;
                    if link.texture_id is Some {
                        assert(textures.contains_key(link.texture_id.unwrap()@));
                    }
                }
            }
        }
        proof {
            // transport program facts across the attribute, texture and
            // framebuffer stages
            Gpu::lemma_extends_trans(g_at_entry, g_at, g_tx);
            Gpu::lemma_extends_trans(g_at_entry, g_tx, gpu);
            assert forall|pid: Seq<char>| #[trigger] programs.contains_key(pid) implies {
                let ph = programs.spec_get(pid);
                &&& gpu.programs().contains_key(ph)
                &&& gpu.programs().spec_get(ph).linked
                &&& gpu.programs().spec_get(ph).vertex_source@ == b.spec_vertex_source(pid)
                &&& gpu.programs().spec_get(ph).fragment_source@ == b.spec_fragment_source(pid)
            } by {
                let ph = programs.spec_get(pid);
                assert(g_at_entry.programs().contains_key(ph));
                assert(g_at_entry.programs().spec_get(ph).linked);
                assert(Gpu::extends(g_at_entry, gpu));
            }
            // the uniform stage's structural conditions follow from the
            // builder-level ones
            if b.uniform_program_refs_ok() && b.uniform_names_ok() {
                assert forall|i: int| 0 <= i < uniform_links.spec_len() implies {
                    let link = (#[trigger] uniform_links.entries_seq()[i]).1;
                    forall|j: int| 0 <= j < link.program_ids@.len() ==> {
                        let pid = #[trigger] link.program_ids@[j]@;
                        &&& programs.contains_key(pid)
                        &&& uniform_location_in(
                            gpu.programs().spec_get(programs.spec_get(pid)).vertex_source@,
                            gpu.programs().spec_get(programs.spec_get(pid)).fragment_source@,
                            link.uniform_id@,
                        ) is Some
                    }
                } by {
                    let link = uniform_links.entries_seq()[i].1;
                    assert forall|j: int| 0 <= j < link.program_ids@.len() implies {
                        let pid = #[trigger] link.program_ids@[j]@;
                        &&& programs.contains_key(pid)
                        &&& uniform_location_in(
                            gpu.programs().spec_get(programs.spec_get(pid)).vertex_source@,
                            gpu.programs().spec_get(programs.spec_get(pid)).fragment_source@,
                            link.uniform_id@,
                        ) is Some
                    } by {
                        let pid = link.program_ids@[j]@;
                        assert(program_links.contains_key(pid));
                        assert(programs.contains_key(pid));
                        assert(gpu.programs().spec_get(programs.spec_get(pid)).vertex_source@
                            == b.spec_vertex_source(pid));
                        assert(gpu.programs().spec_get(programs.spec_get(pid)).fragment_source@
                            == b.spec_fragment_source(pid));
                    }
                }
                assert(uniforms_stage_ok(gpu, uniform_links, programs));
            }
        }
        let ghost g_un_entry = gpu;
        let uniforms = match build_uniforms_stage(
            &mut gpu,
            &cb,
            &mut user_ctx,
            &uniform_links,
            &programs,
        ) {
            Ok(t) => t,
            Err(e) => {
                proof {
                    if e is ProgramNotFoundBuildUniformsError {
                        let (i, j) = choose|i: int, j: int|
                            0 <= i < uniform_links.spec_len()
                            && 0 <= j < uniform_links.entries_seq()[i].1.program_ids@.len()
                            && !programs.contains_key(
                                uniform_links.entries_seq()[i].1.program_ids@[j]@,
                            );
                        assert(!program_links.contains_key(
                            uniform_links.entries_seq()[i].1.program_ids@[j]@,
                        ));
                        assert(!b.uniform_program_refs_ok());
                    }
                    if e is UniformLocationNotFoundBuildUniformsError {
                        let (i, j) = choose|i: int, j: int|
                            0 <= i < uniform_links.spec_len()
                            && 0 <= j < uniform_links.entries_seq()[i].1.program_ids@.len()
                            && programs.contains_key(
                                #[trigger] uniform_links.entries_seq()[i].1.program_ids@[j]@,
                            )
                            && uniform_location_in(
                                g_un_entry.programs().spec_get(
                                    programs.spec_get(
                                        uniform_links.entries_seq()[i].1.program_ids@[j]@,
                                    ),
                                ).vertex_source@,
                                g_un_entry.programs().spec_get(
                                    programs.spec_get(
                                        uniform_links.entries_seq()[i].1.program_ids@[j]@,
                                    ),
                                ).fragment_source@,
                                uniform_links.entries_seq()[i].1.uniform_id@,
                            ) is None;
                        let link = uniform_links.entries_seq()[i].1;
                        let pid = uniform_links.entries_seq()[i].1.program_ids@[j]@;
                        assert(g_un_entry.programs().spec_get(
                            programs.spec_get(pid),
                        ).vertex_source@ == b.spec_vertex_source(pid));
                        assert(g_un_entry.programs().spec_get(
                            programs.spec_get(pid),
                        ).fragment_source@ == b.spec_fragment_source(pid));
                        assert(program_links.contains_key(pid));
                        assert(!b.uniform_names_ok());
                    }
                }
                return Err(e);
            },
        };
        let ghost g_un = gpu;
        proof {
            // a successful uniform stage certifies the builder-level
            // uniform conditions
            assert(uniforms_stage_ok(g_un_entry, uniform_links, programs));
            assert(b.uniform_program_refs_ok() && b.uniform_names_ok()) by {
                assert forall|i: int, j: int|
                    0 <= i < uniform_links.spec_len()
                    && 0 <= j < uniform_links.entries_seq()[i].1.program_ids@.len() implies {
                    let link = uniform_links.entries_seq()[i].1;
                    let pid = #[trigger] uniform_links.entries_seq()[i].1.program_ids@[j]@;
                    &&& program_links.contains_key(pid)
                    &&& uniform_location_in(
                        b.spec_vertex_source(pid),
                        b.spec_fragment_source(pid),
                        link.uniform_id@,
                    ) is Some
                } by {
                    let link = uniform_links.entries_seq()[i].1;
                    let pid = uniform_links.entries_seq()[i].1.program_ids@[j]@;
                    assert(programs.contains_key(pid));
                    assert(g_un_entry.programs().spec_get(programs.spec_get(pid)).vertex_source@
                        == b.spec_vertex_source(pid));
                    assert(g_un_entry.programs().spec_get(programs.spec_get(pid)).fragment_source@
                        == b.spec_fragment_source(pid));
                }
            }
        }
        let transform_feedbacks = match create_transform_feedbacks_stage(
            &mut gpu,
            &transform_feedback_links,
        ) {
            Ok(t) => t,
            Err(e) => {
                return Err(e);
            },
        };
        let resources = Resources {
            vertex_shaders,
            fragment_shaders,
            programs,
            vertex_array_objects,
            buffers,
            attributes,
            uniforms,
            textures,
            framebuffers,
            transform_feedbacks,
        };
        proof {
            // every stored handle is still live in the final device state
            assert(Gpu::extends(g_fb, gpu)) by {
                Gpu::lemma_extends_trans(g_fb, g_un, gpu);
            }
            assert(Gpu::extends(g_tx, gpu)) by {
                Gpu::lemma_extends_trans(g_tx, g_fb, gpu);
            }
            assert(Gpu::extends(g_at, gpu)) by {
                Gpu::lemma_extends_trans(g_at, g_tx, gpu);
            }
            assert(Gpu::extends(g_bu, gpu)) by {
                Gpu::lemma_extends_refl(g_at_entry);
                assert(Gpu::extends(g_bu, g_at_entry));
                Gpu::lemma_extends_trans(g_bu, g_at_entry, g_at);
                Gpu::lemma_extends_trans(g_bu, g_at, gpu);
            }
            assert(Gpu::extends(g_pr, gpu)) by {
                Gpu::lemma_extends_trans(g_pr, g_bu, gpu);
            }
            assert(Gpu::extends(g_vs, gpu)) by {
                Gpu::lemma_extends_trans(g_vs, g_pr, gpu);
            }
            assert forall|id: Seq<char>| #[trigger] resources.vertex_shaders.contains_key(id)
                implies gpu.shaders().contains_key(resources.vertex_shaders.spec_get(id))
            by {
                assert(g_vs.shaders().contains_key(resources.vertex_shaders.spec_get(id)));
            }
            assert forall|id: Seq<char>| #[trigger] resources.fragment_shaders.contains_key(id)
                implies gpu.shaders().contains_key(resources.fragment_shaders.spec_get(id))
            by {
                assert(g_fs.shaders().contains_key(resources.fragment_shaders.spec_get(id)));
                assert(g_vs.shaders().contains_key(resources.fragment_shaders.spec_get(id)));
            }
            assert forall|id: Seq<char>| #[trigger] resources.programs.contains_key(id) implies (
                gpu.programs().contains_key(resources.programs.spec_get(id))
                && gpu.programs().spec_get(resources.programs.spec_get(id)).linked
            ) by {
                assert(g_pr.programs().contains_key(resources.programs.spec_get(id)));
                assert(g_pr.programs().spec_get(resources.programs.spec_get(id)).linked);
            }
            assert forall|id: Seq<char>| #[trigger] resources.vertex_array_objects.contains_key(
                id,
            ) implies gpu.vaos().contains_key(resources.vertex_array_objects.spec_get(id))
            by {
                assert(g_pr.vaos().contains_key(resources.vertex_array_objects.spec_get(id)));
            }
            assert forall|id: Seq<char>| #[trigger] resources.buffers.contains_key(id) implies
                gpu.buffers().contains_key(resources.buffers.spec_get(id).webgl_buffer)
            by {
                assert(g_bu.buffers().contains_key(resources.buffers.spec_get(id).webgl_buffer));
            }
            assert forall|id: Seq<char>| #[trigger] resources.textures.contains_key(id) implies
                gpu.textures().contains_key(resources.textures.spec_get(id).webgl_texture)
            by {
                assert(g_tx.textures().contains_key(resources.textures.spec_get(id).webgl_texture));
            }
            assert forall|id: Seq<char>| #[trigger] resources.framebuffers.contains_key(id)
                implies gpu.framebuffers().contains_key(
                resources.framebuffers.spec_get(id).webgl_framebuffer,
            ) by {
                assert(g_fb.framebuffers().contains_key(
                    resources.framebuffers.spec_get(id).webgl_framebuffer,
                ));
            }
            // program and vertex-array tables cover the same identifiers
            assert forall|id: Seq<char>| resources.programs.contains_key(id)
                <==> #[trigger] resources.vertex_array_objects.contains_key(id)
            by {
                assert(resources.programs.key_seq() == program_links.key_seq());
                assert(resources.vertex_array_objects.key_seq() == program_links.key_seq());
            }
            // uniform ownership resolves inside the renderer's own tables
            assert forall|id: Seq<char>| #[trigger] resources.uniforms.contains_key(id) implies {
                let u = resources.uniforms.spec_get(id);
                &&& u.uniform_locations.wf()
                &&& forall|j: int| 0 <= j < u.program_ids@.len() ==> (
                    resources.programs.contains_key(#[trigger] u.program_ids@[j]@)
                    && u.uniform_locations.contains_key(u.program_ids@[j]@)
                )
            } by {
                let u = resources.uniforms.spec_get(id);
                let link = uniform_links.spec_get(id);
                assert(u.program_ids@ == link.program_ids@);
                assert forall|j: int| 0 <= j < u.program_ids@.len() implies (
                    resources.programs.contains_key(#[trigger] u.program_ids@[j]@)
                    && u.uniform_locations.contains_key(u.program_ids@[j]@)
                ) by {
                    uniform_links.lemma_index_of(id);
                    let i = uniform_links.index_of(id);
                    assert(uniform_links.entries_seq()[i].1 == link);
                    assert(link.program_ids@[j]@ == u.program_ids@[j]@);
                    assert(programs.contains_key(link.program_ids@[j]@));
                }
            }
            assert(resources.wf(gpu));
            // the stored locations are the ones the linked programs
            // resolve from the registered sources
            assert forall|id: Seq<char>| #[trigger] resources.attributes.contains_key(id) implies {
                let a = resources.attributes.spec_get(id);
                let link = attribute_links.spec_get(id);
                forall|j: int| 0 <= j < a.program_ids@.len()
                    ==> a.attribute_locations.spec_get(#[trigger] a.program_ids@[j]@) as int
                    == attrib_location_in(
                    b.spec_vertex_source(a.program_ids@[j]@),
                    link.attribute_id@,
                )
            } by {
                let a = resources.attributes.spec_get(id);
                let link = attribute_links.spec_get(id);
                assert forall|j: int| 0 <= j < a.program_ids@.len() implies
                    a.attribute_locations.spec_get(#[trigger] a.program_ids@[j]@) as int
                        == attrib_location_in(
                        b.spec_vertex_source(a.program_ids@[j]@),
                        link.attribute_id@,
                    )
                by {
                    let pid = a.program_ids@[j]@;
                    assert(programs.contains_key(pid));
                    assert(g_at_entry.programs().spec_get(programs.spec_get(pid)).vertex_source@
                        == b.spec_vertex_source(pid));
                }
            }
            assert forall|id: Seq<char>| #[trigger] resources.uniforms.contains_key(id) implies {
                let u = resources.uniforms.spec_get(id);
                let link = uniform_links.spec_get(id);
                forall|j: int| 0 <= j < u.program_ids@.len()
                    ==> Some(u.uniform_locations.spec_get(#[trigger] u.program_ids@[j]@))
                    == uniform_location_in(
                    b.spec_vertex_source(u.program_ids@[j]@),
                    b.spec_fragment_source(u.program_ids@[j]@),
                    link.uniform_id@,
                )
            } by {
                let u = resources.uniforms.spec_get(id);
                let link = uniform_links.spec_get(id);
                assert forall|j: int| 0 <= j < u.program_ids@.len() implies
                    Some(u.uniform_locations.spec_get(#[trigger] u.program_ids@[j]@))
                        == uniform_location_in(
                        b.spec_vertex_source(u.program_ids@[j]@),
                        b.spec_fragment_source(u.program_ids@[j]@),
                        link.uniform_id@,
                    )
                by {
                    let pid = u.program_ids@[j]@;
                    assert(programs.contains_key(pid));
                    assert(g_un_entry.programs().spec_get(programs.spec_get(pid)).vertex_source@
                        == b.spec_vertex_source(pid));
                    assert(g_un_entry.programs().spec_get(programs.spec_get(pid)).fragment_source@
                        == b.spec_fragment_source(pid));
                }
            }
            // the compile stages certify the builder-level source rule
            assert(b.sources_ok());
            assert(b.program_links_ok()) by {
                assert forall|i: int| 0 <= i < program_links.spec_len() implies {
                    let link = (#[trigger] program_links.entries_seq()[i]).1;
                    &&& vertex_shader_sources.contains_key(link.vertex_shader_id@)
                    &&& fragment_shader_sources.contains_key(link.fragment_shader_id@)
                } by {
                    let id = program_links.key_seq()[i];
                    program_links.lemma_get_at(id, i);
                    assert(programs.contains_key(id));
                    assert(vertex_shaders.contains_key(
                        program_links.spec_get(id).vertex_shader_id@,
                    ));
                    assert(fragment_shaders.contains_key(
                        program_links.spec_get(id).fragment_shader_id@,
                    ));
                }
            }
        }
        let renderer = Renderer::assemble(canvas, gpu, resources, cb, user_ctx);
        Ok(renderer)
    }
}

impl<C: SceneCallbacks> Default for RendererBuilder<C> {
    /// An empty builder: nothing registered, nothing configured.
    fn default() -> (r: Self)
        ensures
            r.wf(),
            r.is_empty(),
    {
        RendererBuilder::new()
    }
}

/// Compiles every source in `sources` as a shader of the given kind and
/// returns the handle table, keyed like `sources`.
fn compile_shaders_stage(
    gpu: &mut Gpu,
    sources: &Table<String, String>,
    kind: ShaderKind,
) -> (r: Result<Table<String, u64>, RendererBuilderError>)
    requires
        old(gpu).wf(),
        sources.wf(),
    ensures
        final(gpu).wf(),
        Gpu::extends(*old(gpu), *final(gpu)),
        forall|h: u64| #[trigger] old(gpu).shaders().contains_key(h) ==> (
            final(gpu).shaders().contains_key(h)
            && final(gpu).shaders().spec_get(h) == old(gpu).shaders().spec_get(h)
        ),
        match r {
            Ok(out) => {
                &&& out.wf()
                &&& out.key_seq() =~= sources.key_seq()
                &&& forall|id: Seq<char>| #[trigger] out.contains_key(id) ==> {
                    let h = out.spec_get(id);
                    &&& final(gpu).shaders().contains_key(h)
                    &&& final(gpu).shaders().spec_get(h).kind == kind
                    &&& final(gpu).shaders().spec_get(h).source@ == sources.spec_get(id)@
                    &&& final(gpu).shaders().spec_get(h).compiled
                }
                &&& forall|i: int| 0 <= i < sources.spec_len() ==> source_compiles(
                    (#[trigger] sources.entries_seq()[i]).1@,
                )
            },
            Err(e) => {
                &&& (e is NoShaderReturnedCompilerShaderError || e is KnownErrorCompileShaderError)
                &&& (e is NoShaderReturnedCompilerShaderError ==> final(gpu).spec_next_handle()
                    == u64::MAX)
                &&& (e is KnownErrorCompileShaderError ==> exists|i: int|
                    0 <= i < sources.spec_len() && !source_compiles(
                        (#[trigger] sources.entries_seq()[i]).1@,
                    ))
            },
        },
        sources.spec_len() == 0 ==> r is Ok,
{
    let mut out: Table<String, u64> = Table::new();
    let n = sources.len();
    proof {
        Gpu::lemma_extends_refl(*gpu);
    }
    let mut k: usize = 0;
    while k < n
        invariant
            gpu.wf(),
            Gpu::extends(*old(gpu), *gpu),
            sources.wf(),
            n == sources.spec_len(),
            k <= n,
            out.wf(),
            out.key_seq() =~= sources.key_seq().subrange(0, k as int),
            forall|h: u64| #[trigger] old(gpu).shaders().contains_key(h) ==> (
                gpu.shaders().contains_key(h)
                && gpu.shaders().spec_get(h) == old(gpu).shaders().spec_get(h)
            ),
            forall|id: Seq<char>| #[trigger] out.contains_key(id) ==> {
                let h = out.spec_get(id);
                &&& gpu.shaders().contains_key(h)
                &&& gpu.shaders().spec_get(h).kind == kind
                &&& gpu.shaders().spec_get(h).source@ == sources.spec_get(id)@
                &&& gpu.shaders().spec_get(h).compiled
            },
            forall|i: int| 0 <= i < k ==> source_compiles(
                (#[trigger] sources.entries_seq()[i]).1@,
            ),
        decreases n - k,
    {
        let id = sources.key_at(k).key_dup();
        let src = sources.value_at(k);
        let ghost g0 = *gpu;
        let h = match gpu.create_shader(kind) {
            Some(h) => h,
            None => {
                proof {
                    Gpu::lemma_extends_trans(*old(gpu), g0, *gpu);
                }
                return Err(RendererBuilderError::NoShaderReturnedCompilerShaderError);
            },
        };
        let ghost g1 = *gpu;
        gpu.shader_source(h, src);
        let ghost g2 = *gpu;
        gpu.compile_shader(h);
        proof {
            Gpu::lemma_extends_trans(g0, g1, g2);
            Gpu::lemma_extends_trans(g0, g2, *gpu);
            Gpu::lemma_extends_trans(*old(gpu), g0, *gpu);
        }
        if !gpu.shader_compile_status(h) {
            let log = match gpu.shader_info_log(h) {
                Some(log) => log,
                None => {
                    proof {
                        assert(false);
                    }
                    vstd::pervasive::unreached()
                },
            };
            proof {
                assert(!source_compiles(sources.entries_seq()[k as int].1@));
            }
            return Err(RendererBuilderError::KnownErrorCompileShaderError(log));
        }
        proof {
            // the three device calls touched only the fresh handle `h`,
            // so every earlier entry of `out` is untouched
            assert forall|id2: Seq<char>| #[trigger] out.contains_key(id2) implies {
                let h2 = out.spec_get(id2);
                &&& gpu.shaders().contains_key(h2)
                &&& gpu.shaders().spec_get(h2).kind == kind
                &&& gpu.shaders().spec_get(h2).source@ == sources.spec_get(id2)@
                &&& gpu.shaders().spec_get(h2).compiled
            } by {
                let h2 = out.spec_get(id2);
                assert(g0.shaders().contains_key(h2));
                assert(h2 != h);
            }
            assert(sources.key_seq()[k as int] == id@);
            if out.contains_key(id@) {
                let j = choose|j: int| 0 <= j < out.key_seq().len() && out.key_seq()[j] == id@;
                assert(out.key_seq()[j] == sources.key_seq()[j]);
                assert(false);
            }
        }
        out.insert(id, h);
        proof {
            assert(out.key_seq() =~= sources.key_seq().subrange(0, k + 1));
        }
        k += 1;
    }
    proof {
        assert(out.key_seq() =~= sources.key_seq());
    }
    Ok(out)
}

/// Links one program per program link, through the scene's
/// program-creation callback, and allocates one vertex array object per
/// program.  Returns the program and vertex-array tables, keyed like the
/// link table.
fn link_programs_stage<C: SceneCallbacks>(
    gpu: &mut Gpu,
    cb: &C,
    user_ctx: &mut Option<C::Ctx>,
    program_links: &Table<String, ProgramLink>,
    vertex_shaders: &Table<String, u64>,
    fragment_shaders: &Table<String, u64>,
) -> (r: Result<(Table<String, u64>, Table<String, u64>), RendererBuilderError>)
    requires
        old(gpu).wf(),
        program_links.wf(),
        vertex_shaders.wf(),
        fragment_shaders.wf(),
        forall|id: Seq<char>| #[trigger] vertex_shaders.contains_key(id) ==> {
            let h = vertex_shaders.spec_get(id);
            &&& old(gpu).shaders().contains_key(h)
            &&& old(gpu).shaders().spec_get(h).kind is Vertex
            &&& old(gpu).shaders().spec_get(h).compiled
        },
        forall|id: Seq<char>| #[trigger] fragment_shaders.contains_key(id) ==> {
            let h = fragment_shaders.spec_get(id);
            &&& old(gpu).shaders().contains_key(h)
            &&& old(gpu).shaders().spec_get(h).kind is Fragment
            &&& old(gpu).shaders().spec_get(h).compiled
        },
    ensures
        final(gpu).wf(),
        Gpu::extends(*old(gpu), *final(gpu)),
        (*final(user_ctx)) is Some == (*old(user_ctx)) is Some,
        final(gpu).shaders() == old(gpu).shaders(),
        match r {
            Ok(out) => {
                &&& out.0.wf()
                &&& out.1.wf()
                &&& out.0.key_seq() =~= program_links.key_seq()
                &&& out.1.key_seq() =~= program_links.key_seq()
                &&& forall|id: Seq<char>| #[trigger] out.0.contains_key(id) ==> {
                    let ph = out.0.spec_get(id);
                    let link = program_links.spec_get(id);
                    &&& final(gpu).programs().contains_key(ph)
                    &&& final(gpu).programs().spec_get(ph).linked
                    &&& vertex_shaders.contains_key(link.vertex_shader_id@)
                    &&& fragment_shaders.contains_key(link.fragment_shader_id@)
                    &&& final(gpu).programs().spec_get(ph).vertex_source@ == old(
                        gpu,
                    ).shaders().spec_get(vertex_shaders.spec_get(link.vertex_shader_id@)).source@
                    &&& final(gpu).programs().spec_get(ph).fragment_source@ == old(
                        gpu,
                    ).shaders().spec_get(fragment_shaders.spec_get(link.fragment_shader_id@)).source@
                }
                &&& forall|id: Seq<char>| #[trigger] out.1.contains_key(id)
                    ==> final(gpu).vaos().contains_key(out.1.spec_get(id))
            },
            Err(e) => {
                &&& (e is VertexShaderNotFoundLinkProgramError
                    || e is FragmentShaderNotFoundLinkProgramError
                    || e is CreateProgramLinkProgramError
                    || e is NoVaoLinkProgramError)
                &&& (e is NoVaoLinkProgramError ==> final(gpu).spec_next_handle() == u64::MAX)
                &&& (match e {
                    RendererBuilderError::CreateProgramLinkProgramError(inner) =>
                        inner is NoProgramReturned ==> final(gpu).spec_next_handle() == u64::MAX,
                    _ => true,
                })
                &&& (e is VertexShaderNotFoundLinkProgramError ==> exists|i: int|
                    0 <= i < program_links.spec_len() && !vertex_shaders.contains_key(
                        (#[trigger] program_links.entries_seq()[i]).1.vertex_shader_id@,
                    ))
                &&& (e is FragmentShaderNotFoundLinkProgramError ==> exists|i: int|
                    0 <= i < program_links.spec_len() && !fragment_shaders.contains_key(
                        (#[trigger] program_links.entries_seq()[i]).1.fragment_shader_id@,
                    ))
            },
        },
        program_links.spec_len() == 0 ==> r is Ok,
{
    let mut programs_out: Table<String, u64> = Table::new();
    let mut vaos_out: Table<String, u64> = Table::new();
    let n = program_links.len();
    proof {
        Gpu::lemma_extends_refl(*gpu);
    }
    let mut k: usize = 0;
    while k < n
        invariant
            gpu.wf(),
            Gpu::extends(*old(gpu), *gpu),
            (*user_ctx) is Some == (*old(user_ctx)) is Some,
            gpu.shaders() == old(gpu).shaders(),
            program_links.wf(),
            vertex_shaders.wf(),
            fragment_shaders.wf(),
            forall|id: Seq<char>| #[trigger] vertex_shaders.contains_key(id) ==> {
                let h = vertex_shaders.spec_get(id);
                &&& old(gpu).shaders().contains_key(h)
                &&& old(gpu).shaders().spec_get(h).kind is Vertex
                &&& old(gpu).shaders().spec_get(h).compiled
            },
            forall|id: Seq<char>| #[trigger] fragment_shaders.contains_key(id) ==> {
                let h = fragment_shaders.spec_get(id);
                &&& old(gpu).shaders().contains_key(h)
                &&& old(gpu).shaders().spec_get(h).kind is Fragment
                &&& old(gpu).shaders().spec_get(h).compiled
            },
            n == program_links.spec_len(),
            k <= n,
            programs_out.wf(),
            vaos_out.wf(),
            programs_out.key_seq() =~= program_links.key_seq().subrange(0, k as int),
            vaos_out.key_seq() =~= program_links.key_seq().subrange(0, k as int),
            forall|id: Seq<char>| #[trigger] programs_out.contains_key(id) ==> {
                let ph = programs_out.spec_get(id);
                let link = program_links.spec_get(id);
                &&& gpu.programs().contains_key(ph)
                &&& gpu.programs().spec_get(ph).linked
                &&& vertex_shaders.contains_key(link.vertex_shader_id@)
                &&& fragment_shaders.contains_key(link.fragment_shader_id@)
                &&& gpu.programs().spec_get(ph).vertex_source@ == old(gpu).shaders().spec_get(
                    vertex_shaders.spec_get(link.vertex_shader_id@),
                ).source@
                &&& gpu.programs().spec_get(ph).fragment_source@ == old(gpu).shaders().spec_get(
                    fragment_shaders.spec_get(link.fragment_shader_id@),
                ).source@
            },
            forall|id: Seq<char>| #[trigger] vaos_out.contains_key(id)
                ==> gpu.vaos().contains_key(vaos_out.spec_get(id)),
        decreases n - k,
    {
        let id = program_links.key_at(k).key_dup();
        let ghost link_ghost = program_links.entries_seq()[k as int].1;
        proof {
            program_links.lemma_get_at(id@, k as int);
        }
        let vh = {
            let link = program_links.value_at(k);
            match vertex_shaders.get(link.vertex_shader_id()) {
                Some(h) => *h,
                None => {
                    proof {
                        assert(!vertex_shaders.contains_key(
                            program_links.entries_seq()[k as int].1.vertex_shader_id@,
                        ));
                    }
                    return Err(RendererBuilderError::VertexShaderNotFoundLinkProgramError);
                },
            }
        };
        let fh = {
            let link = program_links.value_at(k);
            match fragment_shaders.get(link.fragment_shader_id()) {
                Some(h) => *h,
                None => {
                    proof {
                        assert(!fragment_shaders.contains_key(
                            program_links.entries_seq()[k as int].1.fragment_shader_id@,
                        ));
                    }
                    return Err(RendererBuilderError::FragmentShaderNotFoundLinkProgramError);
                },
            }
        };
        let varyings = clone_strings(program_links.value_at(k).transform_feedback_varyings());
        let now = gpu.time();
        let ghost g0 = *gpu;
        let ph = match C::create_program(
            cb,
            gpu,
            now,
            user_ctx,
            vh,
            fh,
            varyings,
            program_links.value_at(k).program_id(),
        ) {
            Ok(ph) => ph,
            Err(e) => {
                proof {
                    Gpu::lemma_extends_trans(*old(gpu), g0, *gpu);
                }
                return Err(RendererBuilderError::CreateProgramLinkProgramError(e));
            },
        };
        let ghost g1 = *gpu;
        let vao = match gpu.create_vertex_array() {
            Some(v) => v,
            None => {
                proof {
                    Gpu::lemma_extends_trans(g0, g1, *gpu);
                    Gpu::lemma_extends_trans(*old(gpu), g0, *gpu);
                }
                return Err(RendererBuilderError::NoVaoLinkProgramError);
            },
        };
        proof {
            Gpu::lemma_extends_trans(g0, g1, *gpu);
            Gpu::lemma_extends_trans(*old(gpu), g0, *gpu);
            // earlier programs and vertex arrays survive: the callback
            // extends the device and the allocation touches only the
            // fresh handle
            assert forall|id2: Seq<char>| #[trigger] programs_out.contains_key(id2) implies {
                let ph2 = programs_out.spec_get(id2);
                let link2 = program_links.spec_get(id2);
                &&& gpu.programs().contains_key(ph2)
                &&& gpu.programs().spec_get(ph2).linked
                &&& gpu.programs().spec_get(ph2).vertex_source@ == old(gpu).shaders().spec_get(
                    vertex_shaders.spec_get(link2.vertex_shader_id@),
                ).source@
                &&& gpu.programs().spec_get(ph2).fragment_source@ == old(gpu).shaders().spec_get(
                    fragment_shaders.spec_get(link2.fragment_shader_id@),
                ).source@
            } by {
                let ph2 = programs_out.spec_get(id2);
                assert(g0.programs().contains_key(ph2));
                assert(g0.programs().spec_get(ph2).linked);
                assert(Gpu::extends(g0, *gpu));
            }
            assert(program_links.key_seq()[k as int] == id@);
            if programs_out.contains_key(id@) {
                let j = choose|j: int|
                    0 <= j < programs_out.key_seq().len() && programs_out.key_seq()[j] == id@;
                assert(programs_out.key_seq()[j] == program_links.key_seq()[j]);
                assert(false);
            }
            if vaos_out.contains_key(id@) {
                let j = choose|j: int|
                    0 <= j < vaos_out.key_seq().len() && vaos_out.key_seq()[j] == id@;
                assert(vaos_out.key_seq()[j] == program_links.key_seq()[j]);
                assert(false);
            }
        }
        let id2 = id.key_dup();
        programs_out.insert(id, ph);
        vaos_out.insert(id2, vao);
        proof {
            assert(programs_out.key_seq() =~= program_links.key_seq().subrange(0, k + 1));
            assert(vaos_out.key_seq() =~= program_links.key_seq().subrange(0, k + 1));
        }
        k += 1;
    }
    proof {
        assert(programs_out.key_seq() =~= program_links.key_seq());
        assert(vaos_out.key_seq() =~= program_links.key_seq());
    }
    Ok((programs_out, vaos_out))
}

/// Creates one buffer per buffer link through the scene's callback.
fn create_buffers_stage<C: SceneCallbacks>(
    gpu: &mut Gpu,
    cb: &C,
    user_ctx: &mut Option<C::Ctx>,
    buffer_links: &Table<String, BufferLink>,
) -> (r: Result<Table<String, Buffer>, RendererBuilderError>)
    requires
        old(gpu).wf(),
        buffer_links.wf(),
    ensures
        final(gpu).wf(),
        Gpu::extends(*old(gpu), *final(gpu)),
        (*final(user_ctx)) is Some == (*old(user_ctx)) is Some,
        match r {
            Ok(out) => {
                &&& out.wf()
                &&& out.key_seq() =~= buffer_links.key_seq()
                &&& forall|id: Seq<char>| #[trigger] out.contains_key(id) ==> (
                    final(gpu).buffers().contains_key(out.spec_get(id).webgl_buffer)
                    && out.spec_get(id).buffer_id@ == id
                )
            },
            Err(e) => e is NoBufferReturnedCreateBufferError && final(gpu).spec_next_handle()
                == u64::MAX,
        },
        buffer_links.spec_len() == 0 ==> r is Ok,
{
    let mut out: Table<String, Buffer> = Table::new();
    let n = buffer_links.len();
    proof {
        Gpu::lemma_extends_refl(*gpu);
    }
    let mut k: usize = 0;
    while k < n
        invariant
            gpu.wf(),
            Gpu::extends(*old(gpu), *gpu),
            (*user_ctx) is Some == (*old(user_ctx)) is Some,
            buffer_links.wf(),
            n == buffer_links.spec_len(),
            k <= n,
            out.wf(),
            out.key_seq() =~= buffer_links.key_seq().subrange(0, k as int),
            forall|id: Seq<char>| #[trigger] out.contains_key(id) ==> (
                gpu.buffers().contains_key(out.spec_get(id).webgl_buffer)
                && out.spec_get(id).buffer_id@ == id
            ),
        decreases n - k,
    {
        let id = buffer_links.key_at(k).key_dup();
        let now = gpu.time();
        let ghost g0 = *gpu;
        let h = match C::create_buffer(cb, gpu, now, user_ctx, buffer_links.value_at(k).buffer_id())
        {
            Some(h) => h,
            None => {
                proof {
                    Gpu::lemma_extends_trans(*old(gpu), g0, *gpu);
                }
                return Err(RendererBuilderError::NoBufferReturnedCreateBufferError);
            },
        };
        proof {
            Gpu::lemma_extends_trans(*old(gpu), g0, *gpu);
            assert(buffer_links.key_seq()[k as int] == id@);
            if out.contains_key(id@) {
                let j = choose|j: int| 0 <= j < out.key_seq().len() && out.key_seq()[j] == id@;
                assert(out.key_seq()[j] == buffer_links.key_seq()[j]);
                assert(false);
            }
        }
        let record = Buffer::new(id.key_dup(), h);
        out.insert(id, record);
        proof {
            assert(out.key_seq() =~= buffer_links.key_seq().subrange(0, k + 1));
        }
        k += 1;
    }
    proof {
        assert(out.key_seq() =~= buffer_links.key_seq());
    }
    Ok(out)
}

/// Creates one texture per texture link through the scene's callback.
fn create_textures_stage<C: SceneCallbacks>(
    gpu: &mut Gpu,
    cb: &C,
    user_ctx: &mut Option<C::Ctx>,
    texture_links: &Table<String, TextureLink>,
) -> (r: Result<Table<String, Texture>, RendererBuilderError>)
    requires
        old(gpu).wf(),
        texture_links.wf(),
    ensures
        final(gpu).wf(),
        Gpu::extends(*old(gpu), *final(gpu)),
        (*final(user_ctx)) is Some == (*old(user_ctx)) is Some,
        match r {
            Ok(out) => {
                &&& out.wf()
                &&& out.key_seq() =~= texture_links.key_seq()
                &&& forall|id: Seq<char>| #[trigger] out.contains_key(id) ==> (
                    final(gpu).textures().contains_key(out.spec_get(id).webgl_texture)
                    && out.spec_get(id).texture_id@ == id
                )
            },
            Err(e) => e is NoTextureReturnedCreateTextureError && final(gpu).spec_next_handle()
                == u64::MAX,
        },
        texture_links.spec_len() == 0 ==> r is Ok,
{
    let mut out: Table<String, Texture> = Table::new();
    let n = texture_links.len();
    proof {
        Gpu::lemma_extends_refl(*gpu);
    }
    let mut k: usize = 0;
    while k < n
        invariant
            gpu.wf(),
            Gpu::extends(*old(gpu), *gpu),
            (*user_ctx) is Some == (*old(user_ctx)) is Some,
            texture_links.wf(),
            n == texture_links.spec_len(),
            k <= n,
            out.wf(),
            out.key_seq() =~= texture_links.key_seq().subrange(0, k as int),
            forall|id: Seq<char>| #[trigger] out.contains_key(id) ==> (
                gpu.textures().contains_key(out.spec_get(id).webgl_texture)
                && out.spec_get(id).texture_id@ == id
            ),
        decreases n - k,
    {
        let id = texture_links.key_at(k).key_dup();
        let now = gpu.time();
        let ghost g0 = *gpu;
        let h = match C::create_texture(
            cb,
            gpu,
            now,
            user_ctx,
            texture_links.value_at(k).texture_id(),
        ) {
            Some(h) => h,
            None => {
                proof {
                    Gpu::lemma_extends_trans(*old(gpu), g0, *gpu);
                }
                return Err(RendererBuilderError::NoTextureReturnedCreateTextureError);
            },
        };
        proof {
            Gpu::lemma_extends_trans(*old(gpu), g0, *gpu);
            assert(texture_links.key_seq()[k as int] == id@);
            if out.contains_key(id@) {
                let j = choose|j: int| 0 <= j < out.key_seq().len() && out.key_seq()[j] == id@;
                assert(out.key_seq()[j] == texture_links.key_seq()[j]);
                assert(false);
            }
        }
        let record = Texture::new(id.key_dup(), h);
        out.insert(id, record);
        proof {
            assert(out.key_seq() =~= texture_links.key_seq().subrange(0, k + 1));
        }
        k += 1;
    }
    proof {
        assert(out.key_seq() =~= texture_links.key_seq());
    }
    Ok(out)
}

/// Every attribute link resolves against these tables, and its name is
/// active in the vertex-source snapshot of every owning program.
pub open spec fn attributes_stage_ok(
    gpu: Gpu,
    attribute_links: Table<String, AttributeLink>,
    programs: Table<String, u64>,
    buffers: Table<String, Buffer>,
) -> bool {
    forall|i: int| 0 <= i < attribute_links.spec_len() ==> {
        let link = (#[trigger] attribute_links.entries_seq()[i]).1;
        &&& buffers.contains_key(link.buffer_id@)
        &&& forall|j: int| 0 <= j < link.program_ids@.len() ==> {
            let pid = #[trigger] link.program_ids@[j]@;
            &&& programs.contains_key(pid)
            &&& has_word(
                encode_utf8(gpu.programs().spec_get(programs.spec_get(pid)).vertex_source@),
                encode_utf8(link.attribute_id@),
            )
        }
    }
}

/// The six device calls of one attribute visit leave the
/// bind/enable/configure/unbind protocol in the log.
proof fn lemma_attribute_setup_written(
    g0: Gpu,
    g1: Gpu,
    g2: Gpu,
    g3: Gpu,
    g4: Gpu,
    g5: Gpu,
    end: Gpu,
    lo: int,
    vao: u64,
    bh: u64,
    loc_u: u32,
)
    requires
        g1.log() == g0.log().push(GpuCommand::BindVertexArray { vao: Some(vao) }),
        g2.log() == g1.log().push(GpuCommand::BindArrayBuffer { buffer: Some(bh) }),
        g3.log() == g2.log().push(GpuCommand::EnableVertexAttribArray { location: loc_u }),
        Gpu::extends(g3, g4),
        g5.log() == g4.log().push(GpuCommand::BindVertexArray { vao: None }),
        end.log() == g5.log().push(GpuCommand::BindArrayBuffer { buffer: None }),
        0 <= lo <= g0.log().len(),
    ensures
        log_has_attribute_setup(end.log(), lo, end.log().len() as int, vao, bh, loc_u),
{
    let a1 = g0.log().len() as int;
    let a2 = g1.log().len() as int;
    let a3 = g2.log().len() as int;
    let a4 = g4.log().len() as int;
    let a5 = g5.log().len() as int;
    Gpu::lemma_log_index_stable(g3, g4, a1);
    Gpu::lemma_log_index_stable(g3, g4, a2);
    Gpu::lemma_log_index_stable(g3, g4, a3);
    assert(end.log()[a1] == (GpuCommand::BindVertexArray { vao: Some(vao) }));
    assert(end.log()[a2] == (GpuCommand::BindArrayBuffer { buffer: Some(bh) }));
    assert(end.log()[a3] == (GpuCommand::EnableVertexAttribArray { location: loc_u }));
    assert(end.log()[a4] == (GpuCommand::BindVertexArray { vao: None }));
    assert(end.log()[a5] == (GpuCommand::BindArrayBuffer { buffer: None }));
    assert(lo <= a1 < a2 < a3 < a4 < a5 < end.log().len());
}

/// Resolves every attribute link: looks the attribute up by name in each
/// owning program, binds that program's vertex array object and the
/// attribute's buffer, enables the slot, and lets the scene's callback
/// describe the layout.  The same underlying buffer serves every owning
/// program.
#[verifier::rlimit(100)]
fn create_attributes_stage<C: SceneCallbacks>(
    gpu: &mut Gpu,
    cb: &C,
    user_ctx: &mut Option<C::Ctx>,
    attribute_links: &Table<String, AttributeLink>,
    programs: &Table<String, u64>,
    vaos: &Table<String, u64>,
    buffers: &Table<String, Buffer>,
) -> (r: Result<Table<String, Attribute>, RendererBuilderError>)
    requires
        old(gpu).wf(),
        attribute_links.wf(),
        programs.wf(),
        vaos.wf(),
        buffers.wf(),
        forall|id: Seq<char>| #[trigger] programs.contains_key(id) ==> (
            old(gpu).programs().contains_key(programs.spec_get(id))
            && old(gpu).programs().spec_get(programs.spec_get(id)).linked
        ),
        forall|id: Seq<char>| #[trigger] vaos.contains_key(id)
            ==> old(gpu).vaos().contains_key(vaos.spec_get(id)),
        forall|id: Seq<char>| programs.contains_key(id) <==> #[trigger] vaos.contains_key(id),
        forall|id: Seq<char>| #[trigger] buffers.contains_key(id)
            ==> old(gpu).buffers().contains_key(buffers.spec_get(id).webgl_buffer),
    ensures
        final(gpu).wf(),
        Gpu::extends(*old(gpu), *final(gpu)),
        (*final(user_ctx)) is Some == (*old(user_ctx)) is Some,
        match r {
            Ok(out) => {
                &&& out.wf()
                &&& out.key_seq() =~= attribute_links.key_seq()
                &&& attributes_stage_ok(*old(gpu), *attribute_links, *programs, *buffers)
                &&& forall|id: Seq<char>| #[trigger] out.contains_key(id) ==> {
                    let a = out.spec_get(id);
                    let link = attribute_links.spec_get(id);
                    &&& a.attribute_locations.wf()
                    &&& a.program_ids@ == link.program_ids@
                    &&& a.buffer_id@ == link.buffer_id@
                    &&& a.attribute_id@ == id
                    &&& buffers.contains_key(link.buffer_id@)
                    &&& a.webgl_buffer == buffers.spec_get(link.buffer_id@).webgl_buffer
                    &&& forall|j: int| 0 <= j < a.program_ids@.len() ==> (
                        a.attribute_locations.contains_key(#[trigger] a.program_ids@[j]@)
                        && programs.contains_key(a.program_ids@[j]@)
                        && a.attribute_locations.spec_get(a.program_ids@[j]@) as int
                            == attrib_location_in(
                            old(gpu).programs().spec_get(
                                programs.spec_get(a.program_ids@[j]@),
                            ).vertex_source@,
                            link.attribute_id@,
                        )
                    )
                    &&& forall|p: Seq<char>| #[trigger] a.attribute_locations.contains_key(p)
                        ==> exists|j: int| 0 <= j < a.program_ids@.len() && a.program_ids@[j]@
                        == p
                    &&& forall|j: int| 0 <= j < a.program_ids@.len() ==> (
                        vaos.contains_key(#[trigger] a.program_ids@[j]@)
                        && log_has_attribute_setup(
                            final(gpu).log(),
                            old(gpu).log().len() as int,
                            final(gpu).log().len() as int,
                            vaos.spec_get(a.program_ids@[j]@),
                            a.webgl_buffer,
                            a.attribute_locations.spec_get(a.program_ids@[j]@),
                        )
                    )
                }
            },
            Err(e) => {
                &&& (e is BufferNotFoundCreateAttributeError
                    || e is ProgramNotFoundCreateAttributeError
                    || e is AttributeLocationNotFoundCreateAttributeError)
                &&& (e is BufferNotFoundCreateAttributeError ==> exists|i: int|
                    0 <= i < attribute_links.spec_len() && !buffers.contains_key(
                        (#[trigger] attribute_links.entries_seq()[i]).1.buffer_id@,
                    ))
                &&& (e is ProgramNotFoundCreateAttributeError ==> exists|i: int, j: int|
                    0 <= i < attribute_links.spec_len()
                    && 0 <= j < attribute_links.entries_seq()[i].1.program_ids@.len()
                    && !programs.contains_key(
                        #[trigger] attribute_links.entries_seq()[i].1.program_ids@[j]@,
                    ))
                &&& (e is AttributeLocationNotFoundCreateAttributeError ==> exists|i: int, j: int|
                    {
                        let link = attribute_links.entries_seq()[i].1;
                        let pid = #[trigger] attribute_links.entries_seq()[i].1.program_ids@[j]@;
                        &&& 0 <= i < attribute_links.spec_len()
                        &&& 0 <= j < link.program_ids@.len()
                        &&& programs.contains_key(pid)
                        &&& !has_word(
                            encode_utf8(
                                old(gpu).programs().spec_get(
                                    programs.spec_get(pid),
                                ).vertex_source@,
                            ),
                            encode_utf8(link.attribute_id@),
                        )
                    })
            },
        },
        attributes_stage_ok(*old(gpu), *attribute_links, *programs, *buffers) ==> r is Ok,
{
    let mut out: Table<String, Attribute> = Table::new();
    let n = attribute_links.len();
    proof {
        Gpu::lemma_extends_refl(*gpu);
    }
    let mut k: usize = 0;
    while k < n
        invariant
            gpu.wf(),
            Gpu::extends(*old(gpu), *gpu),
            (*user_ctx) is Some == (*old(user_ctx)) is Some,
            attribute_links.wf(),
            programs.wf(),
            vaos.wf(),
            buffers.wf(),
            forall|id: Seq<char>| #[trigger] programs.contains_key(id) ==> (
                old(gpu).programs().contains_key(programs.spec_get(id))
                && old(gpu).programs().spec_get(programs.spec_get(id)).linked
            ),
            forall|id: Seq<char>| #[trigger] vaos.contains_key(id)
                ==> old(gpu).vaos().contains_key(vaos.spec_get(id)),
            forall|id: Seq<char>| programs.contains_key(id) <==> #[trigger] vaos.contains_key(id),
            forall|id: Seq<char>| #[trigger] buffers.contains_key(id)
                ==> old(gpu).buffers().contains_key(buffers.spec_get(id).webgl_buffer),
            n == attribute_links.spec_len(),
            k <= n,
            out.wf(),
            out.key_seq() =~= attribute_links.key_seq().subrange(0, k as int),
            forall|id: Seq<char>| #[trigger] out.contains_key(id) ==> {
                let a = out.spec_get(id);
                let link = attribute_links.spec_get(id);
                &&& a.attribute_locations.wf()
                &&& a.program_ids@ == link.program_ids@
                &&& a.buffer_id@ == link.buffer_id@
                &&& a.attribute_id@ == id
                &&& buffers.contains_key(link.buffer_id@)
                &&& a.webgl_buffer == buffers.spec_get(link.buffer_id@).webgl_buffer
                &&& forall|j: int| 0 <= j < a.program_ids@.len() ==> (
                    a.attribute_locations.contains_key(#[trigger] a.program_ids@[j]@)
                    && programs.contains_key(a.program_ids@[j]@)
                    && a.attribute_locations.spec_get(a.program_ids@[j]@) as int
                        == attrib_location_in(
                        old(gpu).programs().spec_get(
                            programs.spec_get(a.program_ids@[j]@),
                        ).vertex_source@,
                        link.attribute_id@,
                    )
                )
                &&& forall|p: Seq<char>| #[trigger] a.attribute_locations.contains_key(p)
                    ==> exists|j: int| 0 <= j < a.program_ids@.len() && a.program_ids@[j]@ == p
                &&& forall|j: int| 0 <= j < a.program_ids@.len() ==> (
                    vaos.contains_key(#[trigger] a.program_ids@[j]@)
                    && log_has_attribute_setup(
                        gpu.log(),
                        old(gpu).log().len() as int,
                        gpu.log().len() as int,
                        vaos.spec_get(a.program_ids@[j]@),
                        a.webgl_buffer,
                        a.attribute_locations.spec_get(a.program_ids@[j]@),
                    )
                )
            },
            forall|i: int| 0 <= i < k ==> {
                let link = (#[trigger] attribute_links.entries_seq()[i]).1;
                &&& buffers.contains_key(link.buffer_id@)
                &&& forall|j: int| 0 <= j < link.program_ids@.len() ==> {
                    let pid = #[trigger] link.program_ids@[j]@;
                    &&& programs.contains_key(pid)
                    &&& has_word(
                        encode_utf8(
                            old(gpu).programs().spec_get(programs.spec_get(pid)).vertex_source@,
                        ),
                        encode_utf8(link.attribute_id@),
                    )
                }
            },
        decreases n - k,
    {
        let id = attribute_links.key_at(k).key_dup();
        let ghost g_iter = *gpu;
        proof {
            attribute_links.lemma_get_at(id@, k as int);
        }
        let bh = {
            let link = attribute_links.value_at(k);
            match buffers.get(link.buffer_id()) {
                Some(b) => b.webgl_buffer(),
                None => {
                    proof {
                        assert(!buffers.contains_key(
                            attribute_links.entries_seq()[k as int].1.buffer_id@,
                        ));
                    }
                    return Err(RendererBuilderError::BufferNotFoundCreateAttributeError);
                },
            }
        };
        let m = attribute_links.value_at(k).program_ids().len();
        let mut locations: Table<String, u32> = Table::new();
        proof {
            Gpu::lemma_extends_refl(*gpu);
        }
        let mut j: usize = 0;
        while j < m
            invariant
                gpu.wf(),
                Gpu::extends(*old(gpu), *gpu),
            (*user_ctx) is Some == (*old(user_ctx)) is Some,
                attribute_links.wf(),
                programs.wf(),
                vaos.wf(),
                buffers.wf(),
                forall|id2: Seq<char>| #[trigger] programs.contains_key(id2) ==> (
                    old(gpu).programs().contains_key(programs.spec_get(id2))
                    && old(gpu).programs().spec_get(programs.spec_get(id2)).linked
                ),
                forall|id2: Seq<char>| #[trigger] vaos.contains_key(id2)
                    ==> old(gpu).vaos().contains_key(vaos.spec_get(id2)),
                forall|id2: Seq<char>| programs.contains_key(id2) <==> #[trigger] vaos.contains_key(
                    id2,
                ),
                forall|id2: Seq<char>| #[trigger] buffers.contains_key(id2)
                    ==> old(gpu).buffers().contains_key(buffers.spec_get(id2).webgl_buffer),
                k < attribute_links.spec_len(),
                attribute_links.key_seq()[k as int] == id@,
                attribute_links.spec_get(id@) == attribute_links.entries_seq()[k as int].1,
                m == attribute_links.entries_seq()[k as int].1.program_ids@.len(),
                buffers.contains_key(attribute_links.entries_seq()[k as int].1.buffer_id@),
                bh == buffers.spec_get(
                    attribute_links.entries_seq()[k as int].1.buffer_id@,
                ).webgl_buffer,
                j <= m,
                locations.wf(),
                forall|j2: int| 0 <= j2 < j ==> {
                    let pid = #[trigger] attribute_links.entries_seq()[k as int].1.program_ids@[j2]@;
                    &&& programs.contains_key(pid)
                    &&& has_word(
                        encode_utf8(
                            old(gpu).programs().spec_get(programs.spec_get(pid)).vertex_source@,
                        ),
                        encode_utf8(attribute_links.entries_seq()[k as int].1.attribute_id@),
                    )
                    &&& locations.contains_key(pid)
                    &&& locations.spec_get(pid) as int == attrib_location_in(
                        old(gpu).programs().spec_get(programs.spec_get(pid)).vertex_source@,
                        attribute_links.entries_seq()[k as int].1.attribute_id@,
                    )
                    &&& vaos.contains_key(pid)
                    &&& log_has_attribute_setup(
                        gpu.log(),
                        old(gpu).log().len() as int,
                        gpu.log().len() as int,
                        vaos.spec_get(pid),
                        bh,
                        locations.spec_get(pid),
                    )
                },
                forall|p: Seq<char>| #[trigger] locations.contains_key(p) ==> exists|j2: int|
                    0 <= j2 < j && attribute_links.entries_seq()[k as int].1.program_ids@[j2]@
                    == p,
                Gpu::extends(g_iter, *gpu),
            decreases m - j,
        {
            let pid = attribute_links.value_at(k).program_ids()[j].clone();
            let ph = match programs.get(&pid) {
                Some(p) => *p,
                None => {
                    proof {
                        assert(!programs.contains_key(
                            attribute_links.entries_seq()[k as int].1.program_ids@[j as int]@,
                        ));
                    }
                    return Err(RendererBuilderError::ProgramNotFoundCreateAttributeError);
                },
            };
            let vao = match vaos.get(&pid) {
                Some(v) => *v,
                None => {
                    proof {
                        assert(false);
                    }
                    vstd::pervasive::unreached()
                },
            };
            let loc = {
                let link = attribute_links.value_at(k);
                gpu.get_attrib_location(ph, link.attribute_id())
            };
            if loc < 0 {
                proof {
                    let name = attribute_links.entries_seq()[k as int].1.attribute_id@;
                    let snap = gpu.programs().spec_get(ph).vertex_source@;
                    assert(gpu.programs().contains_key(ph) && gpu.programs().spec_get(ph).linked);
                    if has_word(encode_utf8(snap), encode_utf8(name)) {
                        crate::source_text::lemma_first_word_pos(
                            encode_utf8(snap),
                            encode_utf8(name),
                        );
                        assert(false);
                    }
                    assert(snap == old(gpu).programs().spec_get(ph).vertex_source@);
                }
                return Err(RendererBuilderError::AttributeLocationNotFoundCreateAttributeError);
            }
            let loc_u: u32 = loc as u32;
            proof {
                let name = attribute_links.entries_seq()[k as int].1.attribute_id@;
                let snap = gpu.programs().spec_get(ph).vertex_source@;
                assert(gpu.programs().contains_key(ph) && gpu.programs().spec_get(ph).linked);
                if !has_word(encode_utf8(snap), encode_utf8(name)) {
                    assert(loc as int == -1);
                    assert(false);
                }
                assert(snap == old(gpu).programs().spec_get(ph).vertex_source@);
            }
            let now = gpu.time();
            let ghost g0 = *gpu;
            gpu.bind_vertex_array(Some(vao));
            let ghost g1 = *gpu;
            gpu.bind_buffer(Some(bh));
            let ghost g2 = *gpu;
            gpu.enable_vertex_attrib_array(loc_u);
            let ghost g3 = *gpu;
            {
                let link = attribute_links.value_at(k);
                C::configure_attribute(cb, gpu, now, user_ctx, bh, loc_u, link.attribute_id());
            }
            let ghost g4 = *gpu;
            gpu.bind_vertex_array(None);
            let ghost g5 = *gpu;
            gpu.bind_buffer(None);
            proof {
                Gpu::lemma_extends_trans(g0, g1, g2);
                Gpu::lemma_extends_trans(g0, g2, g3);
                Gpu::lemma_extends_trans(g0, g3, g4);
                Gpu::lemma_extends_trans(g0, g4, g5);
                Gpu::lemma_extends_trans(g0, g5, *gpu);
                Gpu::lemma_extends_trans(*old(gpu), g0, *gpu);
                Gpu::lemma_extends_trans(g_iter, g0, *gpu);
                // the bind/enable/configure/unbind protocol just written
                let lo = old(gpu).log().len() as int;
                lemma_attribute_setup_written(g0, g1, g2, g3, g4, g5, *gpu, lo, vao, bh, loc_u);
                // earlier programs' setups survive
                assert forall|j2: int| 0 <= j2 < j implies log_has_attribute_setup(
                    gpu.log(),
                    lo,
                    gpu.log().len() as int,
                    vaos.spec_get(
                        #[trigger] attribute_links.entries_seq()[k as int].1.program_ids@[j2]@,
                    ),
                    bh,
                    locations.spec_get(
                        attribute_links.entries_seq()[k as int].1.program_ids@[j2]@,
                    ),
                ) by {
                    Gpu::lemma_attribute_setup_stable(
                        g0,
                        *gpu,
                        lo,
                        g0.log().len() as int,
                        vaos.spec_get(
                            attribute_links.entries_seq()[k as int].1.program_ids@[j2]@,
                        ),
                        bh,
                        locations.spec_get(
                            attribute_links.entries_seq()[k as int].1.program_ids@[j2]@,
                        ),
                    );
                }
            }
            locations.insert(pid, loc_u);
            j += 1;
        }
        proof {
            assert(attribute_links.key_seq()[k as int] == id@);
            if out.contains_key(id@) {
                let j2 = choose|j2: int| 0 <= j2 < out.key_seq().len() && out.key_seq()[j2] == id@;
                assert(out.key_seq()[j2] == attribute_links.key_seq()[j2]);
                assert(false);
            }
            // setups recorded for earlier attributes survive this
            // iteration's log growth
            assert forall|id2: Seq<char>, j2: int|
                #[trigger] out.contains_key(id2) && 0 <= j2
                    < out.spec_get(id2).program_ids@.len() implies log_has_attribute_setup(
                gpu.log(),
                old(gpu).log().len() as int,
                gpu.log().len() as int,
                vaos.spec_get(#[trigger] out.spec_get(id2).program_ids@[j2]@),
                out.spec_get(id2).webgl_buffer,
                out.spec_get(id2).attribute_locations.spec_get(
                    out.spec_get(id2).program_ids@[j2]@,
                ),
            ) by {
                Gpu::lemma_attribute_setup_stable(
                    g_iter,
                    *gpu,
                    old(gpu).log().len() as int,
                    g_iter.log().len() as int,
                    vaos.spec_get(out.spec_get(id2).program_ids@[j2]@),
                    out.spec_get(id2).webgl_buffer,
                    out.spec_get(id2).attribute_locations.spec_get(
                        out.spec_get(id2).program_ids@[j2]@,
                    ),
                );
            }
        }
        let record = {
            let link = attribute_links.value_at(k);
            Attribute::new(
                clone_strings(link.program_ids()),
                link.buffer_id().clone(),
                id.key_dup(),
                bh,
                locations,
            )
        };
        out.insert(id, record);
        proof {
            assert(out.key_seq() =~= attribute_links.key_seq().subrange(0, k + 1));
            assert forall|j2: int|
                0 <= j2 < attribute_links.entries_seq()[k as int].1.program_ids@.len() implies
                out.spec_get(attribute_links.key_seq()[k as int]).attribute_locations.contains_key(
                    #[trigger] out.spec_get(
                        attribute_links.key_seq()[k as int],
                    ).program_ids@[j2]@,
                )
            by {
                let a = out.spec_get(attribute_links.key_seq()[k as int]);
                assert(a.program_ids@[j2]
                    == attribute_links.entries_seq()[k as int].1.program_ids@[j2]);
            }
        }
        k += 1;
    }
    proof {
        assert(out.key_seq() =~= attribute_links.key_seq());
    }
    Ok(out)
}

/// Every uniform link resolves against these tables, and its name is
/// active in a source snapshot of every owning program.
pub open spec fn uniforms_stage_ok(
    gpu: Gpu,
    uniform_links: Table<String, UniformLink>,
    programs: Table<String, u64>,
) -> bool {
    forall|i: int| 0 <= i < uniform_links.spec_len() ==> {
        let link = (#[trigger] uniform_links.entries_seq()[i]).1;
        forall|j: int| 0 <= j < link.program_ids@.len() ==> {
            let pid = #[trigger] link.program_ids@[j]@;
            &&& programs.contains_key(pid)
            &&& uniform_location_in(
                gpu.programs().spec_get(programs.spec_get(pid)).vertex_source@,
                gpu.programs().spec_get(programs.spec_get(pid)).fragment_source@,
                link.uniform_id@,
            ) is Some
        }
    }
}

/// Resolves every uniform link: for each owning program, activates it,
/// looks the uniform up by name, runs the scene's initialize callback,
/// records the location, and deactivates the program again.
#[verifier::rlimit(100)]
fn build_uniforms_stage<C: SceneCallbacks>(
    gpu: &mut Gpu,
    cb: &C,
    user_ctx: &mut Option<C::Ctx>,
    uniform_links: &Table<String, UniformLink>,
    programs: &Table<String, u64>,
) -> (r: Result<Table<String, Uniform>, RendererBuilderError>)
    requires
        old(gpu).wf(),
        uniform_links.wf(),
        programs.wf(),
        forall|id: Seq<char>| #[trigger] programs.contains_key(id) ==> (
            old(gpu).programs().contains_key(programs.spec_get(id))
            && old(gpu).programs().spec_get(programs.spec_get(id)).linked
        ),
    ensures
        final(gpu).wf(),
        Gpu::extends(*old(gpu), *final(gpu)),
        (*final(user_ctx)) is Some == (*old(user_ctx)) is Some,
        match r {
            Ok(out) => {
                &&& out.wf()
                &&& out.key_seq() =~= uniform_links.key_seq()
                &&& uniforms_stage_ok(*old(gpu), *uniform_links, *programs)
                &&& forall|id: Seq<char>| #[trigger] out.contains_key(id) ==> {
                    let u = out.spec_get(id);
                    let link = uniform_links.spec_get(id);
                    &&& u.uniform_locations.wf()
                    &&& u.program_ids@ == link.program_ids@
                    &&& u.uniform_id@ == id
                    &&& u.use_init_callback_for_update == link.use_init_callback_for_update
                    &&& forall|j: int| 0 <= j < u.program_ids@.len() ==> (
                        u.uniform_locations.contains_key(#[trigger] u.program_ids@[j]@)
                        && programs.contains_key(u.program_ids@[j]@)
                        && Some(u.uniform_locations.spec_get(u.program_ids@[j]@))
                            == uniform_location_in(
                            old(gpu).programs().spec_get(
                                programs.spec_get(u.program_ids@[j]@),
                            ).vertex_source@,
                            old(gpu).programs().spec_get(
                                programs.spec_get(u.program_ids@[j]@),
                            ).fragment_source@,
                            link.uniform_id@,
                        )
                    )
                    &&& forall|p: Seq<char>| #[trigger] u.uniform_locations.contains_key(p)
                        ==> exists|j: int| 0 <= j < u.program_ids@.len() && u.program_ids@[j]@
                        == p
                    &&& forall|j: int| 0 <= j < u.program_ids@.len()
                        ==> log_has_activation_bracket(
                        final(gpu).log(),
                        old(gpu).log().len() as int,
                        final(gpu).log().len() as int,
                        programs.spec_get(#[trigger] u.program_ids@[j]@),
                    )
                }
            },
            Err(e) => {
                &&& (e is ProgramNotFoundBuildUniformsError
                    || e is UniformLocationNotFoundBuildUniformsError)
                &&& (e is ProgramNotFoundBuildUniformsError ==> exists|i: int, j: int|
                    0 <= i < uniform_links.spec_len()
                    && 0 <= j < uniform_links.entries_seq()[i].1.program_ids@.len()
                    && !programs.contains_key(
                        #[trigger] uniform_links.entries_seq()[i].1.program_ids@[j]@,
                    ))
                &&& (e is UniformLocationNotFoundBuildUniformsError ==> exists|i: int, j: int|
                    {
                        let link = uniform_links.entries_seq()[i].1;
                        let pid = #[trigger] uniform_links.entries_seq()[i].1.program_ids@[j]@;
                        &&& 0 <= i < uniform_links.spec_len()
                        &&& 0 <= j < link.program_ids@.len()
                        &&& programs.contains_key(pid)
                        &&& uniform_location_in(
                            old(gpu).programs().spec_get(programs.spec_get(pid)).vertex_source@,
                            old(gpu).programs().spec_get(programs.spec_get(pid)).fragment_source@,
                            link.uniform_id@,
                        ) is None
                    })
            },
        },
        uniforms_stage_ok(*old(gpu), *uniform_links, *programs) ==> r is Ok,
{
    let mut out: Table<String, Uniform> = Table::new();
    let n = uniform_links.len();
    proof {
        Gpu::lemma_extends_refl(*gpu);
    }
    let mut k: usize = 0;
    while k < n
        invariant
            gpu.wf(),
            Gpu::extends(*old(gpu), *gpu),
            (*user_ctx) is Some == (*old(user_ctx)) is Some,
            uniform_links.wf(),
            programs.wf(),
            forall|id: Seq<char>| #[trigger] programs.contains_key(id) ==> (
                old(gpu).programs().contains_key(programs.spec_get(id))
                && old(gpu).programs().spec_get(programs.spec_get(id)).linked
            ),
            n == uniform_links.spec_len(),
            k <= n,
            out.wf(),
            out.key_seq() =~= uniform_links.key_seq().subrange(0, k as int),
            forall|id: Seq<char>| #[trigger] out.contains_key(id) ==> {
                let u = out.spec_get(id);
                let link = uniform_links.spec_get(id);
                &&& u.uniform_locations.wf()
                &&& u.program_ids@ == link.program_ids@
                &&& u.uniform_id@ == id
                &&& u.use_init_callback_for_update == link.use_init_callback_for_update
                &&& forall|j: int| 0 <= j < u.program_ids@.len() ==> (
                    u.uniform_locations.contains_key(#[trigger] u.program_ids@[j]@)
                    && programs.contains_key(u.program_ids@[j]@)
                    && Some(u.uniform_locations.spec_get(u.program_ids@[j]@))
                        == uniform_location_in(
                        old(gpu).programs().spec_get(
                            programs.spec_get(u.program_ids@[j]@),
                        ).vertex_source@,
                        old(gpu).programs().spec_get(
                            programs.spec_get(u.program_ids@[j]@),
                        ).fragment_source@,
                        link.uniform_id@,
                    )
                )
                &&& forall|p: Seq<char>| #[trigger] u.uniform_locations.contains_key(p)
                    ==> exists|j: int| 0 <= j < u.program_ids@.len() && u.program_ids@[j]@ == p
                &&& forall|j: int| 0 <= j < u.program_ids@.len() ==> log_has_activation_bracket(
                    gpu.log(),
                    old(gpu).log().len() as int,
                    gpu.log().len() as int,
                    programs.spec_get(#[trigger] u.program_ids@[j]@),
                )
            },
            forall|i: int| 0 <= i < k ==> {
                let link = (#[trigger] uniform_links.entries_seq()[i]).1;
                forall|j: int| 0 <= j < link.program_ids@.len() ==> {
                    let pid = #[trigger] link.program_ids@[j]@;
                    &&& programs.contains_key(pid)
                    &&& uniform_location_in(
                        old(gpu).programs().spec_get(programs.spec_get(pid)).vertex_source@,
                        old(gpu).programs().spec_get(programs.spec_get(pid)).fragment_source@,
                        link.uniform_id@,
                    ) is Some
                }
            },
        decreases n - k,
    {
        let id = uniform_links.key_at(k).key_dup();
        let ghost g_iter = *gpu;
        proof {
            uniform_links.lemma_get_at(id@, k as int);
        }
        let m = uniform_links.value_at(k).program_ids().len();
        let mut locations: Table<String, u64> = Table::new();
        proof {
            Gpu::lemma_extends_refl(*gpu);
        }
        let mut j: usize = 0;
        while j < m
            invariant
                gpu.wf(),
                Gpu::extends(*old(gpu), *gpu),
                Gpu::extends(g_iter, *gpu),
            (*user_ctx) is Some == (*old(user_ctx)) is Some,
                uniform_links.wf(),
                programs.wf(),
                forall|id2: Seq<char>| #[trigger] programs.contains_key(id2) ==> (
                    old(gpu).programs().contains_key(programs.spec_get(id2))
                    && old(gpu).programs().spec_get(programs.spec_get(id2)).linked
                ),
                k < uniform_links.spec_len(),
                uniform_links.key_seq()[k as int] == id@,
                uniform_links.spec_get(id@) == uniform_links.entries_seq()[k as int].1,
                m == uniform_links.entries_seq()[k as int].1.program_ids@.len(),
                j <= m,
                locations.wf(),
                forall|j2: int| 0 <= j2 < j ==> {
                    let pid = #[trigger] uniform_links.entries_seq()[k as int].1.program_ids@[j2]@;
                    &&& programs.contains_key(pid)
                    &&& locations.contains_key(pid)
                    &&& Some(locations.spec_get(pid)) == uniform_location_in(
                        old(gpu).programs().spec_get(programs.spec_get(pid)).vertex_source@,
                        old(gpu).programs().spec_get(programs.spec_get(pid)).fragment_source@,
                        uniform_links.entries_seq()[k as int].1.uniform_id@,
                    )
                    &&& log_has_activation_bracket(
                        gpu.log(),
                        old(gpu).log().len() as int,
                        gpu.log().len() as int,
                        programs.spec_get(pid),
                    )
                },
                forall|p: Seq<char>| #[trigger] locations.contains_key(p) ==> exists|j2: int|
                    0 <= j2 < j && uniform_links.entries_seq()[k as int].1.program_ids@[j2]@
                    == p,
            decreases m - j,
        {
            let pid = uniform_links.value_at(k).program_ids()[j].clone();
            let ph = match programs.get(&pid) {
                Some(p) => *p,
                None => {
                    proof {
                        assert(!programs.contains_key(
                            uniform_links.entries_seq()[k as int].1.program_ids@[j as int]@,
                        ));
                    }
                    return Err(RendererBuilderError::ProgramNotFoundBuildUniformsError);
                },
            };
            let now = gpu.time();
            let ghost g0 = *gpu;
            gpu.use_program(Some(ph));
            let ghost g1 = *gpu;
            let loc = {
                let link = uniform_links.value_at(k);
                gpu.get_uniform_location(ph, link.uniform_id())
            };
            let loc = match loc {
                Some(l) => l,
                None => {
                    proof {
                        Gpu::lemma_extends_trans(*old(gpu), g0, *gpu);
                        assert(gpu.programs().contains_key(ph)
                            && gpu.programs().spec_get(ph).linked);
                        assert(gpu.programs().spec_get(ph).vertex_source@ == old(
                            gpu,
                        ).programs().spec_get(ph).vertex_source@);
                        assert(gpu.programs().spec_get(ph).fragment_source@ == old(
                            gpu,
                        ).programs().spec_get(ph).fragment_source@);
                    }
                    let uniform_id_text = uniform_links.value_at(k).uniform_id().clone();
                    return Err(
                        RendererBuilderError::UniformLocationNotFoundBuildUniformsError {
                            uniform_id: uniform_id_text,
                        },
                    );
                },
            };
            proof {
                assert(gpu.programs().contains_key(ph) && gpu.programs().spec_get(ph).linked);
                assert(gpu.programs().spec_get(ph).vertex_source@ == old(gpu).programs().spec_get(
                    ph,
                ).vertex_source@);
                assert(gpu.programs().spec_get(ph).fragment_source@ == old(
                    gpu,
                ).programs().spec_get(ph).fragment_source@);
            }
            {
                let link = uniform_links.value_at(k);
                C::initialize_uniform(cb, gpu, now, user_ctx, loc, link.uniform_id());
            }
            let ghost g2 = *gpu;
            gpu.use_program(None);
            proof {
                Gpu::lemma_extends_trans(g0, g1, g2);
                Gpu::lemma_extends_trans(g0, g2, *gpu);
                Gpu::lemma_extends_trans(*old(gpu), g0, *gpu);
                Gpu::lemma_extends_trans(g_iter, g0, *gpu);
                // the activation bracket just written around the callback
                let lo = old(gpu).log().len() as int;
                let a = g0.log().len() as int;
                let z = g2.log().len() as int;
                Gpu::lemma_log_index_stable(g1, g2, a);
                assert(gpu.log()[a] == (GpuCommand::UseProgram { program: Some(ph) }));
                assert(gpu.log()[z] == (GpuCommand::UseProgram { program: None }));
                assert(log_has_activation_bracket(gpu.log(), lo, gpu.log().len() as int, ph))
                    by {
                    assert(lo <= a < z < gpu.log().len());
                }
                // brackets of earlier owning programs survive
                assert forall|j2: int| 0 <= j2 < j implies log_has_activation_bracket(
                    gpu.log(),
                    lo,
                    gpu.log().len() as int,
                    programs.spec_get(
                        #[trigger] uniform_links.entries_seq()[k as int].1.program_ids@[j2]@,
                    ),
                ) by {
                    Gpu::lemma_activation_bracket_stable(
                        g0,
                        *gpu,
                        lo,
                        g0.log().len() as int,
                        programs.spec_get(
                            uniform_links.entries_seq()[k as int].1.program_ids@[j2]@,
                        ),
                    );
                }
            }
            locations.insert(pid, loc);
            j += 1;
        }
        proof {
            assert(uniform_links.key_seq()[k as int] == id@);
            if out.contains_key(id@) {
                let j2 = choose|j2: int| 0 <= j2 < out.key_seq().len() && out.key_seq()[j2] == id@;
                assert(out.key_seq()[j2] == uniform_links.key_seq()[j2]);
                assert(false);
            }
            // brackets recorded for earlier uniforms survive this
            // iteration's log growth
            assert forall|id2: Seq<char>, j2: int|
                #[trigger] out.contains_key(id2) && 0 <= j2
                    < out.spec_get(id2).program_ids@.len() implies log_has_activation_bracket(
                gpu.log(),
                old(gpu).log().len() as int,
                gpu.log().len() as int,
                programs.spec_get(#[trigger] out.spec_get(id2).program_ids@[j2]@),
            ) by {
                Gpu::lemma_activation_bracket_stable(
                    g_iter,
                    *gpu,
                    old(gpu).log().len() as int,
                    g_iter.log().len() as int,
                    programs.spec_get(out.spec_get(id2).program_ids@[j2]@),
                );
            }
        }
        let record = {
            let link = uniform_links.value_at(k);
            Uniform::new(
                clone_strings(link.program_ids()),
                id.key_dup(),
                locations,
                link.use_init_callback_for_update(),
            )
        };
        out.insert(id, record);
        proof {
            assert(out.key_seq() =~= uniform_links.key_seq().subrange(0, k + 1));
            assert forall|j2: int|
                0 <= j2 < uniform_links.entries_seq()[k as int].1.program_ids@.len() implies
                out.spec_get(uniform_links.key_seq()[k as int]).uniform_locations.contains_key(
                    #[trigger] out.spec_get(
                        uniform_links.key_seq()[k as int],
                    ).program_ids@[j2]@,
                )
            by {
                let u = out.spec_get(uniform_links.key_seq()[k as int]);
                assert(u.program_ids@[j2]
                    == uniform_links.entries_seq()[k as int].1.program_ids@[j2]);
            }
        }
        k += 1;
    }
    proof {
        assert(out.key_seq() =~= uniform_links.key_seq());
    }
    Ok(out)
}

/// Resolves every framebuffer link: the optionally named texture is
/// looked up — a named but unregistered texture is a build error — and
/// the scene's callback creates the framebuffer, with the resolved
/// texture handle when one was named.
fn create_framebuffers_stage<C: SceneCallbacks>(
    gpu: &mut Gpu,
    cb: &C,
    user_ctx: &mut Option<C::Ctx>,
    framebuffer_links: &Table<String, FramebufferLink>,
    textures: &Table<String, Texture>,
) -> (r: Result<Table<String, Framebuffer>, RendererBuilderError>)
    requires
        old(gpu).wf(),
        framebuffer_links.wf(),
        textures.wf(),
        forall|id: Seq<char>| #[trigger] textures.contains_key(id)
            ==> old(gpu).textures().contains_key(textures.spec_get(id).webgl_texture),
    ensures
        final(gpu).wf(),
        Gpu::extends(*old(gpu), *final(gpu)),
        (*final(user_ctx)) is Some == (*old(user_ctx)) is Some,
        match r {
            Ok(out) => {
                &&& out.wf()
                &&& out.key_seq() =~= framebuffer_links.key_seq()
                &&& forall|i: int| 0 <= i < framebuffer_links.spec_len() ==> {
                    let link = (#[trigger] framebuffer_links.entries_seq()[i]).1;
                    link.texture_id is Some ==> textures.contains_key(link.texture_id.unwrap()@)
                }
                &&& forall|id: Seq<char>| #[trigger] out.contains_key(id) ==> (
                    final(gpu).framebuffers().contains_key(out.spec_get(id).webgl_framebuffer)
                    && out.spec_get(id).framebuffer_id@ == id
                )
            },
            Err(e) => {
                &&& (e is TextureNotFoundCreateFramebufferError
                    || e is NoFramebufferReturnedCreateFramebufferError)
                &&& (e is NoFramebufferReturnedCreateFramebufferError
                    ==> final(gpu).spec_next_handle() == u64::MAX)
                &&& (e is TextureNotFoundCreateFramebufferError ==> exists|i: int|
                    {
                        let link = (#[trigger] framebuffer_links.entries_seq()[i]).1;
                        &&& 0 <= i < framebuffer_links.spec_len()
                        &&& link.texture_id is Some
                        &&& !textures.contains_key(link.texture_id.unwrap()@)
                    })
            },
        },
        (forall|i: int| 0 <= i < framebuffer_links.spec_len() ==> {
            let link = (#[trigger] framebuffer_links.entries_seq()[i]).1;
            link.texture_id is Some ==> textures.contains_key(link.texture_id.unwrap()@)
        }) ==> (r is Ok || (r is Err && r->Err_0 is NoFramebufferReturnedCreateFramebufferError)),
        framebuffer_links.spec_len() == 0 ==> r is Ok,
{
    let mut out: Table<String, Framebuffer> = Table::new();
    let n = framebuffer_links.len();
    proof {
        Gpu::lemma_extends_refl(*gpu);
    }
    let mut k: usize = 0;
    while k < n
        invariant
            gpu.wf(),
            Gpu::extends(*old(gpu), *gpu),
            (*user_ctx) is Some == (*old(user_ctx)) is Some,
            framebuffer_links.wf(),
            textures.wf(),
            forall|id: Seq<char>| #[trigger] textures.contains_key(id)
                ==> old(gpu).textures().contains_key(textures.spec_get(id).webgl_texture),
            n == framebuffer_links.spec_len(),
            k <= n,
            out.wf(),
            out.key_seq() =~= framebuffer_links.key_seq().subrange(0, k as int),
            forall|id: Seq<char>| #[trigger] out.contains_key(id) ==> (
                gpu.framebuffers().contains_key(out.spec_get(id).webgl_framebuffer)
                && out.spec_get(id).framebuffer_id@ == id
            ),
            forall|i: int| 0 <= i < k ==> {
                let link = (#[trigger] framebuffer_links.entries_seq()[i]).1;
                link.texture_id is Some ==> textures.contains_key(link.texture_id.unwrap()@)
            },
        decreases n - k,
    {
        let id = framebuffer_links.key_at(k).key_dup();
        proof {
            framebuffer_links.lemma_get_at(id@, k as int);
        }
        let texture_handle: Option<u64> = {
            let link = framebuffer_links.value_at(k);
            match link.texture_id() {
                Some(tid) => {
                    match textures.get(tid) {
                        Some(t) => Some(t.webgl_texture()),
                        None => {
                            proof {
                                assert(!textures.contains_key(
                                    framebuffer_links.entries_seq()[
                                        k as int
                                    ].1.texture_id.unwrap()@,
                                ));
                            }
                            return Err(
                                RendererBuilderError::TextureNotFoundCreateFramebufferError,
                            );
                        },
                    }
                },
                None => None,
            }
        };
        let now = gpu.time();
        let ghost g0 = *gpu;
        let h = match C::create_framebuffer(
            cb,
            gpu,
            now,
            user_ctx,
            texture_handle,
            framebuffer_links.value_at(k).framebuffer_id(),
        ) {
            Some(h) => h,
            None => {
                proof {
                    Gpu::lemma_extends_trans(*old(gpu), g0, *gpu);
                }
                return Err(RendererBuilderError::NoFramebufferReturnedCreateFramebufferError);
            },
        };
        proof {
            Gpu::lemma_extends_trans(*old(gpu), g0, *gpu);
            assert(framebuffer_links.key_seq()[k as int] == id@);
            if out.contains_key(id@) {
                let j = choose|j: int| 0 <= j < out.key_seq().len() && out.key_seq()[j] == id@;
                assert(out.key_seq()[j] == framebuffer_links.key_seq()[j]);
                assert(false);
            }
        }
        let record = Framebuffer::new(id.key_dup(), h);
        out.insert(id, record);
        proof {
            assert(out.key_seq() =~= framebuffer_links.key_seq().subrange(0, k + 1));
        }
        k += 1;
    }
    proof {
        assert(out.key_seq() =~= framebuffer_links.key_seq());
    }
    Ok(out)
}

/// Creates one transform-feedback object per link, directly on the
/// device.
fn create_transform_feedbacks_stage(
    gpu: &mut Gpu,
    transform_feedback_links: &Table<String, TransformFeedbackLink>,
) -> (r: Result<Table<String, u64>, RendererBuilderError>)
    requires
        old(gpu).wf(),
        transform_feedback_links.wf(),
    ensures
        final(gpu).wf(),
        Gpu::extends(*old(gpu), *final(gpu)),
        match r {
            Ok(out) => {
                &&& out.wf()
                &&& out.key_seq() =~= transform_feedback_links.key_seq()
                &&& forall|id: Seq<char>| #[trigger] out.contains_key(id)
                    ==> final(gpu).transform_feedbacks().contains_key(out.spec_get(id))
            },
            Err(e) => e is TransformFeedbackNotFoundTransformFeedbackError
                && final(gpu).spec_next_handle() == u64::MAX,
        },
        transform_feedback_links.spec_len() == 0 ==> r is Ok,
{
    let mut out: Table<String, u64> = Table::new();
    let n = transform_feedback_links.len();
    proof {
        Gpu::lemma_extends_refl(*gpu);
    }
    let mut k: usize = 0;
    while k < n
        invariant
            gpu.wf(),
            Gpu::extends(*old(gpu), *gpu),
            transform_feedback_links.wf(),
            n == transform_feedback_links.spec_len(),
            k <= n,
            out.wf(),
            out.key_seq() =~= transform_feedback_links.key_seq().subrange(0, k as int),
            forall|id: Seq<char>| #[trigger] out.contains_key(id)
                ==> gpu.transform_feedbacks().contains_key(out.spec_get(id)),
        decreases n - k,
    {
        let id = transform_feedback_links.key_at(k).key_dup();
        let ghost g0 = *gpu;
        let h = match gpu.create_transform_feedback() {
            Some(h) => h,
            None => {
                proof {
                    Gpu::lemma_extends_trans(*old(gpu), g0, *gpu);
                }
                return Err(RendererBuilderError::TransformFeedbackNotFoundTransformFeedbackError);
            },
        };
        proof {
            Gpu::lemma_extends_trans(*old(gpu), g0, *gpu);
            assert(transform_feedback_links.key_seq()[k as int] == id@);
            if out.contains_key(id@) {
                let j = choose|j: int| 0 <= j < out.key_seq().len() && out.key_seq()[j] == id@;
                assert(out.key_seq()[j] == transform_feedback_links.key_seq()[j]);
                assert(false);
            }
        }
        out.insert(id, h);
        proof {
            assert(out.key_seq() =~= transform_feedback_links.key_seq().subrange(0, k + 1));
        }
        k += 1;
    }
    proof {
        assert(out.key_seq() =~= transform_feedback_links.key_seq());
    }
    Ok(out)
}

} // verus!
