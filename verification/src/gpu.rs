//! The modeled rendering device.
//!
//! `Gpu` stands in for a WebGL2-style rendering context: it allocates
//! handles for shaders, programs, buffers, textures, framebuffers, vertex
//! array objects and transform feedbacks, tracks the current bindings, and
//! appends every state-changing call to a command log that an embedder can
//! replay against a real context.
//!
//! The device decides two things on its own:
//! - a shader source compiles when its braces balance and the source is
//!   not larger than the device's source limit;
//! - an attribute or uniform name is active in a linked program when it
//!   occurs as a whole word in the program's snapshot of the relevant
//!   source, and its location is the byte position of that occurrence
//!   (uniforms found only in the fragment source are offset into a
//!   separate range).

use vstd::prelude::*;
use vstd::utf8::encode_utf8;

use crate::canvas::{Canvas, ContextAttributes};
use crate::source_text::{braces_balanced, check_braces, find_word, first_word_pos, has_word};
use crate::table::Table;

verus! {

/// The largest source, in UTF-8 bytes, the modeled compiler accepts.
pub const MAX_SOURCE_BYTES: usize = 0x7fff_fffe;

/// Uniform locations found in the fragment source start at this value.
pub const FRAGMENT_LOCATION_BASE: u64 = 0x1_0000_0000;

#[derive(Clone, Copy, PartialEq, Eq, Structural, Debug)]
pub enum ShaderKind {
    Vertex,
    Fragment,
}

/// A shader object: its kind, the source last given to it, and whether
/// the last compile succeeded.
pub struct ShaderObject {
    pub kind: ShaderKind,
    pub source: String,
    pub compiled: bool,
}

/// A program object.  Once linked, the program keeps its own snapshot of
/// the attached sources; later changes to the shader objects do not
/// affect it, and a linked program never becomes unlinked.
pub struct ProgramObject {
    pub vertex_shader: Option<u64>,
    pub fragment_shader: Option<u64>,
    pub tf_varyings: Vec<String>,
    pub linked: bool,
    pub vertex_source: String,
    pub fragment_source: String,
    pub uniform_values: Table<u64, Vec<u32>>,
}

/// One state-changing call, as an embedder would replay it.
#[derive(Debug, Clone, PartialEq, Eq)]
pub enum GpuCommand {
    CreateShader { shader: u64, kind: ShaderKind },
    ShaderSource { shader: u64, source: String },
    CompileShader { shader: u64 },
    CreateProgram { program: u64 },
    AttachShader { program: u64, shader: u64 },
    TransformFeedbackVaryings { program: u64, varyings: Vec<String> },
    LinkProgram { program: u64 },
    CreateBuffer { buffer: u64 },
    CreateTexture { texture: u64 },
    CreateFramebuffer { framebuffer: u64 },
    CreateVertexArray { vao: u64 },
    CreateTransformFeedback { transform_feedback: u64 },
    UseProgram { program: Option<u64> },
    BindVertexArray { vao: Option<u64> },
    BindArrayBuffer { buffer: Option<u64> },
    BindFramebuffer { framebuffer: Option<u64> },
    FramebufferTexture { texture: Option<u64> },
    EnableVertexAttribArray { location: u32 },
    VertexAttribPointer { location: u32, size: u32, stride: u32, offset: u32 },
    BufferData { buffer: u64, data: Vec<u8> },
    SetUniform { program: u64, location: u64, words: Vec<u32> },
    DrawArrays { mode: u32, first: i32, count: u32 },
    Clear { mask: u32 },
    Viewport { x: i32, y: i32, width: i32, height: i32 },
}

/// The modeled compiler's acceptance rule for a source string.
pub open spec fn source_compiles(s: Seq<char>) -> bool {
    braces_balanced(encode_utf8(s)) && encode_utf8(s).len() <= MAX_SOURCE_BYTES
}

/// The attribute location a linked program's vertex-source snapshot gives
/// to `name`, or -1 when the name is not active.
pub open spec fn attrib_location_in(vertex_source: Seq<char>, name: Seq<char>) -> int {
    if has_word(encode_utf8(vertex_source), encode_utf8(name)) {
        first_word_pos(encode_utf8(vertex_source), encode_utf8(name))
    } else {
        -1
    }
}

/// The uniform location a linked program gives to `name`, or `None` when
/// the name is active in neither source snapshot.
pub open spec fn uniform_location_in(
    vertex_source: Seq<char>,
    fragment_source: Seq<char>,
    name: Seq<char>,
) -> Option<u64> {
    if has_word(encode_utf8(vertex_source), encode_utf8(name)) {
        Some(first_word_pos(encode_utf8(vertex_source), encode_utf8(name)) as u64)
    } else if has_word(encode_utf8(fragment_source), encode_utf8(name)) {
        Some(
            (FRAGMENT_LOCATION_BASE
                + first_word_pos(encode_utf8(fragment_source), encode_utf8(name))) as u64,
        )
    } else {
        None
    }
}

/// Clones a byte vector, value for value.
fn clone_bytes(v: &Vec<u8>) -> (r: Vec<u8>)
    ensures
        r@ == v@,
{
    let mut r: Vec<u8> = Vec::new();
    let n = v.len();
    let mut i: usize = 0;
    while i < n
        invariant
            n == v@.len(),
            i <= n,
            r@ =~= v@.subrange(0, i as int),
        decreases n - i,
    {
        r.push(v[i]);
        proof {
            assert(r@ =~= v@.subrange(0, i + 1));
        }
        i += 1;
    }
    proof {
        assert(r@ =~= v@);
    }
    r
}

/// Clones a vector of raw words, value for value.
fn clone_words(v: &Vec<u32>) -> (r: Vec<u32>)
    ensures
        r@ == v@,
{
    let mut r: Vec<u32> = Vec::new();
    let n = v.len();
    let mut i: usize = 0;
    while i < n
        invariant
            n == v@.len(),
            i <= n,
            r@ =~= v@.subrange(0, i as int),
        decreases n - i,
    {
        r.push(v[i]);
        proof {
            assert(r@ =~= v@.subrange(0, i + 1));
        }
        i += 1;
    }
    proof {
        assert(r@ =~= v@);
    }
    r
}

/// Somewhere in the log segment `[lo, hi)`, `program` is activated and
/// later deactivated: the protocol every per-program uniform visit
/// follows.
pub open spec fn log_has_activation_bracket(
    log: Seq<GpuCommand>,
    lo: int,
    hi: int,
    program: u64,
) -> bool {
    exists|a: int, z: int|
        lo <= a < z < hi && log[a] == (GpuCommand::UseProgram { program: Some(program) }) && log[z]
            == (GpuCommand::UseProgram { program: None })
}

/// Somewhere in the log segment `[lo, hi)`, in order: the vertex array
/// object is bound, the buffer is bound to the array-buffer target, the
/// attribute slot is enabled, and both bindings are cleared again — the
/// protocol of one attribute's setup in one owning program.
pub open spec fn log_has_attribute_setup(
    log: Seq<GpuCommand>,
    lo: int,
    hi: int,
    vao: u64,
    buffer: u64,
    location: u32,
) -> bool {
    exists|a1: int, a2: int, a3: int, a4: int, a5: int|
        lo <= a1 < a2 < a3 < a4 < a5 < hi
            && log[a1] == (GpuCommand::BindVertexArray { vao: Some(vao) })
            && log[a2] == (GpuCommand::BindArrayBuffer { buffer: Some(buffer) })
            && log[a3] == (GpuCommand::EnableVertexAttribArray { location })
            && log[a4] == (GpuCommand::BindVertexArray { vao: None })
            && log[a5] == (GpuCommand::BindArrayBuffer { buffer: None })
}

pub struct Gpu {
    time: u64,
    next_handle: u64,
    shaders: Table<u64, ShaderObject>,
    programs: Table<u64, ProgramObject>,
    buffers: Table<u64, Vec<u8>>,
    textures: Table<u64, ()>,
    framebuffers: Table<u64, Option<u64>>,
    vaos: Table<u64, ()>,
    transform_feedbacks: Table<u64, ()>,
    bound_program: Option<u64>,
    bound_vao: Option<u64>,
    bound_array_buffer: Option<u64>,
    bound_framebuffer: Option<u64>,
    commands: Vec<GpuCommand>,
    draw_calls: u64,
    canvas_width: u32,
    canvas_height: u32,
    preserve_drawing_buffer: bool,
}

impl Gpu {
    pub closed spec fn spec_time(self) -> u64 {
        self.time
    }

    pub closed spec fn spec_next_handle(self) -> u64 {
        self.next_handle
    }

    pub closed spec fn shaders(self) -> Table<u64, ShaderObject> {
        self.shaders
    }

    pub closed spec fn programs(self) -> Table<u64, ProgramObject> {
        self.programs
    }

    pub closed spec fn buffers(self) -> Table<u64, Vec<u8>> {
        self.buffers
    }

    pub closed spec fn textures(self) -> Table<u64, ()> {
        self.textures
    }

    pub closed spec fn framebuffers(self) -> Table<u64, Option<u64>> {
        self.framebuffers
    }

    pub closed spec fn vaos(self) -> Table<u64, ()> {
        self.vaos
    }

    pub closed spec fn transform_feedbacks(self) -> Table<u64, ()> {
        self.transform_feedbacks
    }

    pub closed spec fn spec_bound_program(self) -> Option<u64> {
        self.bound_program
    }

    pub closed spec fn spec_bound_vao(self) -> Option<u64> {
        self.bound_vao
    }

    pub closed spec fn spec_bound_array_buffer(self) -> Option<u64> {
        self.bound_array_buffer
    }

    pub closed spec fn spec_bound_framebuffer(self) -> Option<u64> {
        self.bound_framebuffer
    }

    pub closed spec fn log(self) -> Seq<GpuCommand> {
        self.commands@
    }

    pub closed spec fn spec_draw_calls(self) -> u64 {
        self.draw_calls
    }

    pub closed spec fn spec_canvas_width(self) -> u32 {
        self.canvas_width
    }

    pub closed spec fn spec_canvas_height(self) -> u32 {
        self.canvas_height
    }

    pub closed spec fn spec_preserve_drawing_buffer(self) -> bool {
        self.preserve_drawing_buffer
    }

    /// The device's structural invariant: tables are well formed, every
    /// handle is below the allocation counter, program-internal tables are
    /// well formed, linked snapshots respect the source limit, and the
    /// draw counter never exceeds the log length.
    pub open spec fn wf(self) -> bool {
        &&& self.shaders().wf()
        &&& self.programs().wf()
        &&& self.buffers().wf()
        &&& self.textures().wf()
        &&& self.framebuffers().wf()
        &&& self.vaos().wf()
        &&& self.transform_feedbacks().wf()
        &&& forall|h: u64| #[trigger] self.shaders().contains_key(h) ==> h < self.spec_next_handle()
        &&& forall|h: u64| #[trigger] self.programs().contains_key(h) ==> h < self.spec_next_handle()
        &&& forall|h: u64| #[trigger] self.buffers().contains_key(h) ==> h < self.spec_next_handle()
        &&& forall|h: u64| #[trigger] self.textures().contains_key(h) ==> h < self.spec_next_handle()
        &&& forall|h: u64| #[trigger] self.framebuffers().contains_key(h) ==> h
            < self.spec_next_handle()
        &&& forall|h: u64| #[trigger] self.vaos().contains_key(h) ==> h < self.spec_next_handle()
        &&& forall|h: u64| #[trigger] self.transform_feedbacks().contains_key(h) ==> h
            < self.spec_next_handle()
        &&& forall|h: u64| #[trigger] self.shaders().contains_key(h)
            ==> (self.shaders().spec_get(h).compiled ==> source_compiles(
            self.shaders().spec_get(h).source@,
        ))
        &&& forall|h: u64| #[trigger] self.programs().contains_key(h) ==> (
            self.programs().spec_get(h).uniform_values.wf()
            && (self.programs().spec_get(h).linked ==> (
                encode_utf8(self.programs().spec_get(h).vertex_source@).len() <= MAX_SOURCE_BYTES
                && encode_utf8(self.programs().spec_get(h).fragment_source@).len()
                    <= MAX_SOURCE_BYTES
            ))
        )
        &&& self.spec_draw_calls() <= self.log().len()
    }

    /// What any sequence of device calls preserves: configuration, handle
    /// validity, linked programs and their snapshots, monotone counters,
    /// and the log as an append-only record.
    pub open spec fn extends(pre: Gpu, post: Gpu) -> bool {
        &&& post.wf()
        &&& pre.spec_next_handle() <= post.spec_next_handle()
        &&& pre.spec_time() <= post.spec_time()
        &&& post.spec_canvas_width() == pre.spec_canvas_width()
        &&& post.spec_canvas_height() == pre.spec_canvas_height()
        &&& post.spec_preserve_drawing_buffer() == pre.spec_preserve_drawing_buffer()
        &&& forall|h: u64| #[trigger] pre.shaders().contains_key(h)
            ==> post.shaders().contains_key(h)
        &&& forall|h: u64| #[trigger] pre.programs().contains_key(h)
            ==> post.programs().contains_key(h)
        &&& forall|h: u64| #[trigger] pre.buffers().contains_key(h)
            ==> post.buffers().contains_key(h)
        &&& forall|h: u64| #[trigger] pre.textures().contains_key(h)
            ==> post.textures().contains_key(h)
        &&& forall|h: u64| #[trigger] pre.framebuffers().contains_key(h)
            ==> post.framebuffers().contains_key(h)
        &&& forall|h: u64| #[trigger] pre.vaos().contains_key(h) ==> post.vaos().contains_key(h)
        &&& forall|h: u64| #[trigger] pre.transform_feedbacks().contains_key(h)
            ==> post.transform_feedbacks().contains_key(h)
        &&& forall|h: u64|
            #[trigger] pre.programs().contains_key(h) && pre.programs().spec_get(h).linked ==> {
                &&& post.programs().spec_get(h).linked
                &&& post.programs().spec_get(h).vertex_source@
                    == pre.programs().spec_get(h).vertex_source@
                &&& post.programs().spec_get(h).fragment_source@
                    == pre.programs().spec_get(h).fragment_source@
            }
        &&& pre.log().len() <= post.log().len()
        &&& post.log().subrange(0, pre.log().len() as int) == pre.log()
    }

    /// Extension is transitive.
    pub proof fn lemma_extends_trans(a: Gpu, b: Gpu, c: Gpu)
        requires
            Gpu::extends(a, b),
            Gpu::extends(b, c),
        ensures
            Gpu::extends(a, c),
    {
        assert(c.log().subrange(0, a.log().len() as int)
            =~= b.log().subrange(0, a.log().len() as int)) by {
            assert(b.log() == c.log().subrange(0, b.log().len() as int));
            assert forall|i: int| 0 <= i < a.log().len() implies
                c.log().subrange(0, a.log().len() as int)[i]
                    == b.log().subrange(0, a.log().len() as int)[i]
            by {
                assert(b.log()[i] == c.log().subrange(0, b.log().len() as int)[i]);
            }
        }
    }

    /// Entries of the log survive any extension.
    pub proof fn lemma_log_index_stable(pre: Gpu, post: Gpu, i: int)
        requires
            Gpu::extends(pre, post),
            0 <= i < pre.log().len(),
        ensures
            post.log()[i] == pre.log()[i],
    {
        assert(pre.log()[i] == post.log().subrange(0, pre.log().len() as int)[i]);
    }

    /// An activation bracket in the log survives any extension.
    pub proof fn lemma_activation_bracket_stable(pre: Gpu, post: Gpu, lo: int, hi: int, p: u64)
        requires
            Gpu::extends(pre, post),
            0 <= lo,
            hi <= pre.log().len(),
            log_has_activation_bracket(pre.log(), lo, hi, p),
        ensures
            log_has_activation_bracket(post.log(), lo, hi, p),
    {
        let (a, z) = choose|a: int, z: int|
            lo <= a < z < hi && pre.log()[a] == (GpuCommand::UseProgram { program: Some(p) })
                && pre.log()[z] == (GpuCommand::UseProgram { program: None });
        Gpu::lemma_log_index_stable(pre, post, a);
        Gpu::lemma_log_index_stable(pre, post, z);
        assert(lo <= a < z < hi && post.log()[a] == (GpuCommand::UseProgram { program: Some(p) })
            && post.log()[z] == (GpuCommand::UseProgram { program: None }));
    }

    /// An attribute-setup sequence in the log survives any extension.
    #[verifier::rlimit(100)]
    pub proof fn lemma_attribute_setup_stable(
        pre: Gpu,
        post: Gpu,
        lo: int,
        hi: int,
        vao: u64,
        buffer: u64,
        location: u32,
    )
        requires
            Gpu::extends(pre, post),
            0 <= lo,
            hi <= pre.log().len(),
            log_has_attribute_setup(pre.log(), lo, hi, vao, buffer, location),
        ensures
            log_has_attribute_setup(post.log(), lo, hi, vao, buffer, location),
    {
        let (a1, a2, a3, a4, a5) = choose|a1: int, a2: int, a3: int, a4: int, a5: int|
            lo <= a1 < a2 < a3 < a4 < a5 < hi
                && pre.log()[a1] == (GpuCommand::BindVertexArray { vao: Some(vao) })
                && pre.log()[a2] == (GpuCommand::BindArrayBuffer { buffer: Some(buffer) })
                && pre.log()[a3] == (GpuCommand::EnableVertexAttribArray { location })
                && pre.log()[a4] == (GpuCommand::BindVertexArray { vao: None })
                && pre.log()[a5] == (GpuCommand::BindArrayBuffer { buffer: None });
        Gpu::lemma_log_index_stable(pre, post, a1);
        Gpu::lemma_log_index_stable(pre, post, a2);
        Gpu::lemma_log_index_stable(pre, post, a3);
        Gpu::lemma_log_index_stable(pre, post, a4);
        Gpu::lemma_log_index_stable(pre, post, a5);
        assert(lo <= a1 < a2 < a3 < a4 < a5 < hi
            && post.log()[a1] == (GpuCommand::BindVertexArray { vao: Some(vao) })
            && post.log()[a2] == (GpuCommand::BindArrayBuffer { buffer: Some(buffer) })
            && post.log()[a3] == (GpuCommand::EnableVertexAttribArray { location })
            && post.log()[a4] == (GpuCommand::BindVertexArray { vao: None })
            && post.log()[a5] == (GpuCommand::BindArrayBuffer { buffer: None }));
    }

    /// Extension is reflexive.
    pub proof fn lemma_extends_refl(a: Gpu)
        requires
            a.wf(),
        ensures
            Gpu::extends(a, a),
    {
        assert(a.log().subrange(0, a.log().len() as int) =~= a.log());
    }

    /// Everything outside the log, the draw counter and the time agrees.
    pub open spec fn same_objects(pre: Gpu, post: Gpu) -> bool {
        &&& post.spec_next_handle() == pre.spec_next_handle()
        &&& post.shaders() == pre.shaders()
        &&& post.programs() == pre.programs()
        &&& post.buffers() == pre.buffers()
        &&& post.textures() == pre.textures()
        &&& post.framebuffers() == pre.framebuffers()
        &&& post.vaos() == pre.vaos()
        &&& post.transform_feedbacks() == pre.transform_feedbacks()
    }

    pub open spec fn same_bindings(pre: Gpu, post: Gpu) -> bool {
        &&& post.spec_bound_program() == pre.spec_bound_program()
        &&& post.spec_bound_vao() == pre.spec_bound_vao()
        &&& post.spec_bound_array_buffer() == pre.spec_bound_array_buffer()
        &&& post.spec_bound_framebuffer() == pre.spec_bound_framebuffer()
    }

    /// Acquires a rendering context from a canvas.  Succeeds exactly when
    /// the canvas can hand one out; the fresh device is empty.
    pub fn from_canvas(canvas: &Canvas, attributes: &ContextAttributes) -> (r: Option<Gpu>)
        ensures
            r is Some <==> canvas.spec_context_available(),
            match r {
                Some(g) => {
                    &&& g.wf()
                    &&& g.spec_time() == 0
                    &&& g.spec_next_handle() == 1
                    &&& g.shaders().spec_len() == 0
                    &&& g.programs().spec_len() == 0
                    &&& g.buffers().spec_len() == 0
                    &&& g.textures().spec_len() == 0
                    &&& g.framebuffers().spec_len() == 0
                    &&& g.vaos().spec_len() == 0
                    &&& g.transform_feedbacks().spec_len() == 0
                    &&& g.spec_bound_program() is None
                    &&& g.spec_bound_vao() is None
                    &&& g.spec_bound_array_buffer() is None
                    &&& g.spec_bound_framebuffer() is None
                    &&& g.log().len() == 0
                    &&& g.spec_draw_calls() == 0
                    &&& g.spec_canvas_width() == canvas.spec_width()
                    &&& g.spec_canvas_height() == canvas.spec_height()
                    &&& g.spec_preserve_drawing_buffer()
                        == attributes.spec_preserve_drawing_buffer()
                },
                None => true,
            },
    {
        if !canvas.context_available() {
            return None;
        }
        Some(
            Gpu {
                time: 0,
                next_handle: 1,
                shaders: Table::new(),
                programs: Table::new(),
                buffers: Table::new(),
                textures: Table::new(),
                framebuffers: Table::new(),
                vaos: Table::new(),
                transform_feedbacks: Table::new(),
                bound_program: None,
                bound_vao: None,
                bound_array_buffer: None,
                bound_framebuffer: None,
                commands: Vec::new(),
                draw_calls: 0,
                canvas_width: canvas.width(),
                canvas_height: canvas.height(),
                preserve_drawing_buffer: attributes.preserve_drawing_buffer(),
            },
        )
    }

    pub fn time(&self) -> (r: u64)
        ensures
            r == self.spec_time(),
    {
        self.time
    }

    /// Advances the device clock; time never moves backwards.
    pub fn set_time(&mut self, t: u64)
        requires
            old(self).wf(),
            t >= old(self).spec_time(),
        ensures
            final(self).wf(),
            Gpu::extends(*old(self), *final(self)),
            final(self).spec_time() == t,
            Gpu::same_objects(*old(self), *final(self)),
            Gpu::same_bindings(*old(self), *final(self)),
            final(self).log() == old(self).log(),
            final(self).spec_draw_calls() == old(self).spec_draw_calls(),
    {
        self.time = t;
        proof {
            assert(final(self).log().subrange(0, old(self).log().len() as int)
                =~= old(self).log());
        }
    }

    pub fn draw_count(&self) -> (r: u64)
        ensures
            r == self.spec_draw_calls(),
    {
        self.draw_calls
    }

    /// The command log so far.
    pub fn commands(&self) -> (r: &Vec<GpuCommand>)
        ensures
            r@ == self.log(),
    {
        &self.commands
    }

    pub fn drawing_buffer_width(&self) -> (r: u32)
        ensures
            r == self.spec_canvas_width(),
    {
        self.canvas_width
    }

    pub fn drawing_buffer_height(&self) -> (r: u32)
        ensures
            r == self.spec_canvas_height(),
    {
        self.canvas_height
    }

    pub fn preserve_drawing_buffer(&self) -> (r: bool)
        ensures
            r == self.spec_preserve_drawing_buffer(),
    {
        self.preserve_drawing_buffer
    }

    /// All object tables other than the shaders agree.
    pub open spec fn same_objects_except_shaders(pre: Gpu, post: Gpu) -> bool {
        &&& post.programs() == pre.programs()
        &&& post.buffers() == pre.buffers()
        &&& post.textures() == pre.textures()
        &&& post.framebuffers() == pre.framebuffers()
        &&& post.vaos() == pre.vaos()
        &&& post.transform_feedbacks() == pre.transform_feedbacks()
    }

    /// All object tables other than the programs agree.
    pub open spec fn same_objects_except_programs(pre: Gpu, post: Gpu) -> bool {
        &&& post.shaders() == pre.shaders()
        &&& post.buffers() == pre.buffers()
        &&& post.textures() == pre.textures()
        &&& post.framebuffers() == pre.framebuffers()
        &&& post.vaos() == pre.vaos()
        &&& post.transform_feedbacks() == pre.transform_feedbacks()
    }

    /// The clock and the draw counter agree.
    pub open spec fn same_counters(pre: Gpu, post: Gpu) -> bool {
        &&& post.spec_time() == pre.spec_time()
        &&& post.spec_draw_calls() == pre.spec_draw_calls()
    }

    /// Creates a new shader object of the given kind.  Returns `None`
    /// exactly when the device has run out of handles.
    pub fn create_shader(&mut self, kind: ShaderKind) -> (r: Option<u64>)
        requires
            old(self).wf(),
        ensures
            final(self).wf(),
            Gpu::extends(*old(self), *final(self)),
            r is None <==> old(self).spec_next_handle() == u64::MAX,
            match r {
                Some(h) => {
                    &&& h == old(self).spec_next_handle()
                    &&& final(self).spec_next_handle() == old(self).spec_next_handle() + 1
                    &&& !old(self).shaders().contains_key(h)
                    &&& final(self).shaders().contains_key(h)
                    &&& final(self).shaders().spec_get(h).kind == kind
                    &&& final(self).shaders().spec_get(h).source@ == Seq::<char>::empty()
                    &&& !final(self).shaders().spec_get(h).compiled
                    &&& forall|h2: u64| h2 != h ==> #[trigger] final(self).shaders().contains_key(
                        h2,
                    ) == old(self).shaders().contains_key(h2)
                    &&& forall|h2: u64| h2 != h && old(self).shaders().contains_key(h2)
                        ==> #[trigger] final(self).shaders().spec_get(h2) == old(
                        self,
                    ).shaders().spec_get(h2)
                    &&& Gpu::same_objects_except_shaders(*old(self), *final(self))
                    &&& Gpu::same_bindings(*old(self), *final(self))
                    &&& Gpu::same_counters(*old(self), *final(self))
                    &&& final(self).log() == old(self).log().push(
                        GpuCommand::CreateShader { shader: h, kind },
                    )
                },
                None => *final(self) == *old(self),
            },
    {
        if self.next_handle == u64::MAX {
            proof {
                Gpu::lemma_extends_refl(*self);
            }
            return None;
        }
        let h = self.next_handle;
        self.next_handle = self.next_handle + 1;
        self.shaders.insert(
            h,
            ShaderObject { kind, source: String::new(), compiled: false },
        );
        self.commands.push(GpuCommand::CreateShader { shader: h, kind });
        proof {
            assert(final(self).log().subrange(0, old(self).log().len() as int)
                =~= old(self).log());
        }
        Some(h)
    }

    /// Replaces the source of a shader object; its compile status resets.
    pub fn shader_source(&mut self, shader: u64, source: &String)
        requires
            old(self).wf(),
            old(self).shaders().contains_key(shader),
        ensures
            final(self).wf(),
            Gpu::extends(*old(self), *final(self)),
            final(self).shaders().contains_key(shader),
            final(self).shaders().spec_get(shader).kind == old(self).shaders().spec_get(
                shader,
            ).kind,
            final(self).shaders().spec_get(shader).source@ == source@,
            !final(self).shaders().spec_get(shader).compiled,
            forall|h2: u64| h2 != shader ==> #[trigger] final(self).shaders().contains_key(h2)
                == old(self).shaders().contains_key(h2),
            forall|h2: u64| h2 != shader && old(self).shaders().contains_key(h2)
                ==> #[trigger] final(self).shaders().spec_get(h2) == old(self).shaders().spec_get(
                h2,
            ),
            Gpu::same_objects_except_shaders(*old(self), *final(self)),
            Gpu::same_bindings(*old(self), *final(self)),
            Gpu::same_counters(*old(self), *final(self)),
            final(self).spec_next_handle() == old(self).spec_next_handle(),
            final(self).log() == old(self).log().push(
                GpuCommand::ShaderSource { shader, source: *source },
            ),
    {
        let i = match self.shaders.find(&shader) {
            Some(i) => i,
            None => {
                proof {
                    assert(false);
                }
                vstd::pervasive::unreached()
            },
        };
        let (key, obj) = self.shaders.remove_at(i);
        self.shaders.insert_at(
            i,
            key,
            ShaderObject { kind: obj.kind, source: source.clone(), compiled: false },
        );
        self.commands.push(GpuCommand::ShaderSource { shader, source: source.clone() });
        proof {
            assert(final(self).log().subrange(0, old(self).log().len() as int)
                =~= old(self).log());
        }
    }

    /// Compiles a shader object: the source is accepted exactly when it
    /// satisfies `source_compiles`.
    pub fn compile_shader(&mut self, shader: u64)
        requires
            old(self).wf(),
            old(self).shaders().contains_key(shader),
        ensures
            final(self).wf(),
            Gpu::extends(*old(self), *final(self)),
            final(self).shaders().contains_key(shader),
            final(self).shaders().spec_get(shader).kind == old(self).shaders().spec_get(
                shader,
            ).kind,
            final(self).shaders().spec_get(shader).source == old(self).shaders().spec_get(
                shader,
            ).source,
            final(self).shaders().spec_get(shader).compiled == source_compiles(
                old(self).shaders().spec_get(shader).source@,
            ),
            forall|h2: u64| h2 != shader ==> #[trigger] final(self).shaders().contains_key(h2)
                == old(self).shaders().contains_key(h2),
            forall|h2: u64| h2 != shader && old(self).shaders().contains_key(h2)
                ==> #[trigger] final(self).shaders().spec_get(h2) == old(self).shaders().spec_get(
                h2,
            ),
            Gpu::same_objects_except_shaders(*old(self), *final(self)),
            Gpu::same_bindings(*old(self), *final(self)),
            Gpu::same_counters(*old(self), *final(self)),
            final(self).spec_next_handle() == old(self).spec_next_handle(),
            final(self).log() == old(self).log().push(GpuCommand::CompileShader { shader }),
    {
        let i = match self.shaders.find(&shader) {
            Some(i) => i,
            None => {
                proof {
                    assert(false);
                }
                vstd::pervasive::unreached()
            },
        };
        let (key, obj) = self.shaders.remove_at(i);
        let bytes = obj.source.as_str().as_bytes();
        let accepted = bytes.len() <= MAX_SOURCE_BYTES && check_braces(bytes);
        self.shaders.insert_at(
            i,
            key,
            ShaderObject { kind: obj.kind, source: obj.source, compiled: accepted },
        );
        self.commands.push(GpuCommand::CompileShader { shader });
        proof {
            assert(final(self).log().subrange(0, old(self).log().len() as int)
                =~= old(self).log());
        }
    }

    /// Whether the last compile of this shader succeeded.
    pub fn shader_compile_status(&self, shader: u64) -> (r: bool)
        requires
            self.wf(),
            self.shaders().contains_key(shader),
        ensures
            r == self.shaders().spec_get(shader).compiled,
    {
        match self.shaders.get(&shader) {
            Some(obj) => obj.compiled,
            None => {
                proof {
                    assert(false);
                }
                vstd::pervasive::unreached()
            },
        }
    }

    /// Creates a new program object.  Returns `None` exactly when the
    /// device has run out of handles.
    pub fn create_program(&mut self) -> (r: Option<u64>)
        requires
            old(self).wf(),
        ensures
            final(self).wf(),
            Gpu::extends(*old(self), *final(self)),
            r is None <==> old(self).spec_next_handle() == u64::MAX,
            match r {
                Some(h) => {
                    &&& h == old(self).spec_next_handle()
                    &&& final(self).spec_next_handle() == old(self).spec_next_handle() + 1
                    &&& !old(self).programs().contains_key(h)
                    &&& final(self).programs().contains_key(h)
                    &&& final(self).programs().spec_get(h).vertex_shader is None
                    &&& final(self).programs().spec_get(h).fragment_shader is None
                    &&& final(self).programs().spec_get(h).tf_varyings@ == Seq::<String>::empty()
                    &&& !final(self).programs().spec_get(h).linked
                    &&& final(self).programs().spec_get(h).uniform_values.spec_len() == 0
                    &&& forall|h2: u64| h2 != h ==> #[trigger] final(self).programs().contains_key(
                        h2,
                    ) == old(self).programs().contains_key(h2)
                    &&& forall|h2: u64| h2 != h && old(self).programs().contains_key(h2)
                        ==> #[trigger] final(self).programs().spec_get(h2) == old(
                        self,
                    ).programs().spec_get(h2)
                    &&& Gpu::same_objects_except_programs(*old(self), *final(self))
                    &&& Gpu::same_bindings(*old(self), *final(self))
                    &&& Gpu::same_counters(*old(self), *final(self))
                    &&& final(self).log() == old(self).log().push(
                        GpuCommand::CreateProgram { program: h },
                    )
                },
                None => *final(self) == *old(self),
            },
    {
        if self.next_handle == u64::MAX {
            proof {
                Gpu::lemma_extends_refl(*self);
            }
            return None;
        }
        let h = self.next_handle;
        self.next_handle = self.next_handle + 1;
        self.programs.insert(
            h,
            ProgramObject {
                vertex_shader: None,
                fragment_shader: None,
                tf_varyings: Vec::new(),
                linked: false,
                vertex_source: String::new(),
                fragment_source: String::new(),
                uniform_values: Table::new(),
            },
        );
        self.commands.push(GpuCommand::CreateProgram { program: h });
        proof {
            assert(final(self).log().subrange(0, old(self).log().len() as int)
                =~= old(self).log());
        }
        Some(h)
    }

    /// Attaches a shader to a not-yet-linked program; the shader fills
    /// the slot of its own kind.
    pub fn attach_shader(&mut self, program: u64, shader: u64)
        requires
            old(self).wf(),
            old(self).programs().contains_key(program),
            !old(self).programs().spec_get(program).linked,
            old(self).shaders().contains_key(shader),
        ensures
            final(self).wf(),
            Gpu::extends(*old(self), *final(self)),
            final(self).programs().contains_key(program),
            ({
                let pre_obj = old(self).programs().spec_get(program);
                let post_obj = final(self).programs().spec_get(program);
                &&& if old(self).shaders().spec_get(shader).kind is Vertex {
                    post_obj.vertex_shader == Some(shader)
                        && post_obj.fragment_shader == pre_obj.fragment_shader
                } else {
                    post_obj.fragment_shader == Some(shader)
                        && post_obj.vertex_shader == pre_obj.vertex_shader
                }
                &&& post_obj.tf_varyings == pre_obj.tf_varyings
                &&& !post_obj.linked
                &&& post_obj.uniform_values == pre_obj.uniform_values
            }),
            forall|h2: u64| h2 != program ==> #[trigger] final(self).programs().contains_key(h2)
                == old(self).programs().contains_key(h2),
            forall|h2: u64| h2 != program && old(self).programs().contains_key(h2)
                ==> #[trigger] final(self).programs().spec_get(h2) == old(self).programs().spec_get(
                h2,
            ),
            Gpu::same_objects_except_programs(*old(self), *final(self)),
            Gpu::same_bindings(*old(self), *final(self)),
            Gpu::same_counters(*old(self), *final(self)),
            final(self).spec_next_handle() == old(self).spec_next_handle(),
            final(self).log() == old(self).log().push(
                GpuCommand::AttachShader { program, shader },
            ),
    {
        let is_vertex = match self.shaders.get(&shader) {
            Some(obj) => matches!(obj.kind, ShaderKind::Vertex),
            None => {
                proof {
                    assert(false);
                }
                vstd::pervasive::unreached()
            },
        };
        let i = match self.programs.find(&program) {
            Some(i) => i,
            None => {
                proof {
                    assert(false);
                }
                vstd::pervasive::unreached()
            },
        };
        let (key, obj) = self.programs.remove_at(i);
        let new_obj = if is_vertex {
            ProgramObject { vertex_shader: Some(shader), ..obj }
        } else {
            ProgramObject { fragment_shader: Some(shader), ..obj }
        };
        self.programs.insert_at(i, key, new_obj);
        self.commands.push(GpuCommand::AttachShader { program, shader });
        proof {
            assert(final(self).log().subrange(0, old(self).log().len() as int)
                =~= old(self).log());
        }
    }

    /// Records the transform-feedback varying names a program will
    /// capture; must happen before the program is linked.
    pub fn transform_feedback_varyings(&mut self, program: u64, varyings: Vec<String>)
        requires
            old(self).wf(),
            old(self).programs().contains_key(program),
            !old(self).programs().spec_get(program).linked,
        ensures
            final(self).wf(),
            Gpu::extends(*old(self), *final(self)),
            final(self).programs().contains_key(program),
            ({
                let pre_obj = old(self).programs().spec_get(program);
                let post_obj = final(self).programs().spec_get(program);
                &&& post_obj.tf_varyings == varyings
                &&& post_obj.vertex_shader == pre_obj.vertex_shader
                &&& post_obj.fragment_shader == pre_obj.fragment_shader
                &&& !post_obj.linked
                &&& post_obj.uniform_values == pre_obj.uniform_values
            }),
            forall|h2: u64| h2 != program ==> #[trigger] final(self).programs().contains_key(h2)
                == old(self).programs().contains_key(h2),
            forall|h2: u64| h2 != program && old(self).programs().contains_key(h2)
                ==> #[trigger] final(self).programs().spec_get(h2) == old(self).programs().spec_get(
                h2,
            ),
            Gpu::same_objects_except_programs(*old(self), *final(self)),
            Gpu::same_bindings(*old(self), *final(self)),
            Gpu::same_counters(*old(self), *final(self)),
            final(self).spec_next_handle() == old(self).spec_next_handle(),
            final(self).log().len() == old(self).log().len() + 1,
            final(self).log().subrange(0, old(self).log().len() as int) == old(self).log(),
            (final(self).log().last() matches GpuCommand::TransformFeedbackVaryings {
                program: p2,
                varyings: v2,
            } && p2 == program && v2@ == varyings@),
    {
        let i = match self.programs.find(&program) {
            Some(i) => i,
            None => {
                proof {
                    assert(false);
                }
                vstd::pervasive::unreached()
            },
        };
        let logged = crate::links::clone_strings(&varyings);
        let (key, obj) = self.programs.remove_at(i);
        self.programs.insert_at(i, key, ProgramObject { tf_varyings: varyings, ..obj });
        self.commands.push(GpuCommand::TransformFeedbackVaryings { program, varyings: logged });
        proof {
            assert(final(self).log().subrange(0, old(self).log().len() as int)
                =~= old(self).log());
        }
    }

    /// Whether linking would succeed right now: both shader slots are
    /// filled and both shaders' last compiles succeeded.
    pub open spec fn link_would_succeed(self, program: u64) -> bool {
        match (
            self.programs().spec_get(program).vertex_shader,
            self.programs().spec_get(program).fragment_shader,
        ) {
            (Some(vh), Some(fh)) => {
                &&& self.shaders().contains_key(vh)
                &&& self.shaders().spec_get(vh).compiled
                &&& self.shaders().contains_key(fh)
                &&& self.shaders().spec_get(fh).compiled
            },
            _ => false,
        }
    }

    /// Links a program.  On success the program snapshots the attached
    /// sources; once linked, a program never changes again (linking a
    /// linked program has no further effect).
    pub fn link_program(&mut self, program: u64)
        requires
            old(self).wf(),
            old(self).programs().contains_key(program),
        ensures
            final(self).wf(),
            Gpu::extends(*old(self), *final(self)),
            final(self).programs().contains_key(program),
            ({
                let pre = *old(self);
                let pre_obj = pre.programs().spec_get(program);
                let post_obj = final(self).programs().spec_get(program);
                if pre_obj.linked {
                    post_obj == pre_obj
                } else if pre.link_would_succeed(program) {
                    &&& post_obj.linked
                    &&& post_obj.vertex_shader == pre_obj.vertex_shader
                    &&& post_obj.fragment_shader == pre_obj.fragment_shader
                    &&& post_obj.tf_varyings == pre_obj.tf_varyings
                    &&& post_obj.uniform_values == pre_obj.uniform_values
                    &&& post_obj.vertex_source == pre.shaders().spec_get(
                        pre_obj.vertex_shader.unwrap(),
                    ).source
                    &&& post_obj.fragment_source == pre.shaders().spec_get(
                        pre_obj.fragment_shader.unwrap(),
                    ).source
                } else {
                    post_obj == pre_obj
                }
            }),
            forall|h2: u64| h2 != program ==> #[trigger] final(self).programs().contains_key(h2)
                == old(self).programs().contains_key(h2),
            forall|h2: u64| h2 != program && old(self).programs().contains_key(h2)
                ==> #[trigger] final(self).programs().spec_get(h2) == old(self).programs().spec_get(
                h2,
            ),
            Gpu::same_objects_except_programs(*old(self), *final(self)),
            Gpu::same_bindings(*old(self), *final(self)),
            Gpu::same_counters(*old(self), *final(self)),
            final(self).spec_next_handle() == old(self).spec_next_handle(),
            final(self).log() == old(self).log().push(GpuCommand::LinkProgram { program }),
    {
        let i = match self.programs.find(&program) {
            Some(i) => i,
            None => {
                proof {
                    assert(false);
                }
                vstd::pervasive::unreached()
            },
        };
        let (key, obj) = self.programs.remove_at(i);
        let new_obj = if obj.linked {
            obj
        } else {
            let sources: Option<(String, String)> = match (obj.vertex_shader, obj.fragment_shader) {
                (Some(vh), Some(fh)) => {
                    let vs_ok: Option<String> = match self.shaders.get(&vh) {
                        Some(s) => if s.compiled {
                            Some(s.source.clone())
                        } else {
                            None
                        },
                        None => None,
                    };
                    let fs_ok: Option<String> = match self.shaders.get(&fh) {
                        Some(s) => if s.compiled {
                            Some(s.source.clone())
                        } else {
                            None
                        },
                        None => None,
                    };
                    match (vs_ok, fs_ok) {
                        (Some(vs), Some(fs)) => Some((vs, fs)),
                        _ => None,
                    }
                },
                _ => None,
            };
            match sources {
                Some((vs, fs)) => ProgramObject {
                    linked: true,
                    vertex_source: vs,
                    fragment_source: fs,
                    ..obj
                },
                None => obj,
            }
        };
        self.programs.insert_at(i, key, new_obj);
        self.commands.push(GpuCommand::LinkProgram { program });
        proof {
            assert(final(self).log().subrange(0, old(self).log().len() as int)
                =~= old(self).log());
        }
    }

    /// Whether the program is linked.
    pub fn program_link_status(&self, program: u64) -> (r: bool)
        requires
            self.wf(),
            self.programs().contains_key(program),
        ensures
            r == self.programs().spec_get(program).linked,
    {
        match self.programs.get(&program) {
            Some(obj) => obj.linked,
            None => {
                proof {
                    assert(false);
                }
                vstd::pervasive::unreached()
            },
        }
    }

    /// The linker's diagnostic for a program: present exactly when the
    /// program is not linked.
    pub fn program_info_log(&self, program: u64) -> (r: Option<String>)
        requires
            self.wf(),
            self.programs().contains_key(program),
        ensures
            r is Some <==> !self.programs().spec_get(program).linked,
    {
        match self.programs.get(&program) {
            Some(obj) => {
                if obj.linked {
                    None
                } else {
                    Some("link rejected: a shader slot is empty or a shader did not compile".to_owned())
                }
            },
            None => {
                proof {
                    assert(false);
                }
                vstd::pervasive::unreached()
            },
        }
    }

    /// The attribute location the program gives to `name`: the byte
    /// position of its first whole-word occurrence in the vertex-source
    /// snapshot, or -1 when the name is not active there.
    pub open spec fn spec_attrib_location(self, program: u64, name: Seq<char>) -> int {
        if self.programs().contains_key(program) && self.programs().spec_get(program).linked {
            attrib_location_in(self.programs().spec_get(program).vertex_source@, name)
        } else {
            -1
        }
    }

    pub fn get_attrib_location(&self, program: u64, name: &String) -> (r: i32)
        requires
            self.wf(),
        ensures
            r as int == self.spec_attrib_location(program, name@),
            r >= -1,
    {
        let obj = match self.programs.get(&program) {
            Some(obj) => obj,
            None => {
                return -1;
            },
        };
        if !obj.linked {
            return -1;
        }
        let src = obj.vertex_source.as_str().as_bytes();
        match find_word(src, name.as_str().as_bytes()) {
            Some(k) => {
                proof {
                    assert(encode_utf8(obj.vertex_source@).len() <= MAX_SOURCE_BYTES);
                }
                k as i32
            },
            None => -1,
        }
    }

    /// The uniform location the program gives to `name`: the byte
    /// position of its first whole-word occurrence in the vertex-source
    /// snapshot, or that position in the fragment-source snapshot offset
    /// by `FRAGMENT_LOCATION_BASE`, or `None` when the name is active in
    /// neither.
    pub open spec fn spec_uniform_location(self, program: u64, name: Seq<char>) -> Option<u64> {
        if self.programs().contains_key(program) && self.programs().spec_get(program).linked {
            uniform_location_in(
                self.programs().spec_get(program).vertex_source@,
                self.programs().spec_get(program).fragment_source@,
                name,
            )
        } else {
            None
        }
    }

    pub fn get_uniform_location(&self, program: u64, name: &String) -> (r: Option<u64>)
        requires
            self.wf(),
        ensures
            r == self.spec_uniform_location(program, name@),
    {
        let obj = match self.programs.get(&program) {
            Some(obj) => obj,
            None => {
                return None;
            },
        };
        if !obj.linked {
            return None;
        }
        match find_word(obj.vertex_source.as_str().as_bytes(), name.as_str().as_bytes()) {
            Some(k) => Some(k as u64),
            None => {
                match find_word(
                    obj.fragment_source.as_str().as_bytes(),
                    name.as_str().as_bytes(),
                ) {
                    Some(k) => {
                        proof {
                            assert(encode_utf8(obj.fragment_source@).len() <= MAX_SOURCE_BYTES);
                        }
                        Some(FRAGMENT_LOCATION_BASE + k as u64)
                    },
                    None => None,
                }
            },
        }
    }

    /// Creates a buffer object.  `None` exactly when handles ran out.
    pub fn create_buffer(&mut self) -> (r: Option<u64>)
        requires
            old(self).wf(),
        ensures
            final(self).wf(),
            Gpu::extends(*old(self), *final(self)),
            r is None <==> old(self).spec_next_handle() == u64::MAX,
            match r {
                Some(h) => {
                    &&& h == old(self).spec_next_handle()
                    &&& final(self).spec_next_handle() == old(self).spec_next_handle() + 1
                    &&& !old(self).buffers().contains_key(h)
                    &&& final(self).buffers().contains_key(h)
                    &&& final(self).buffers().spec_get(h)@ == Seq::<u8>::empty()
                    &&& forall|h2: u64| h2 != h ==> #[trigger] final(self).buffers().contains_key(
                        h2,
                    ) == old(self).buffers().contains_key(h2)
                    &&& forall|h2: u64| h2 != h && old(self).buffers().contains_key(h2)
                        ==> #[trigger] final(self).buffers().spec_get(h2) == old(
                        self,
                    ).buffers().spec_get(h2)
                    &&& final(self).shaders() == old(self).shaders()
                    &&& final(self).programs() == old(self).programs()
                    &&& final(self).textures() == old(self).textures()
                    &&& final(self).framebuffers() == old(self).framebuffers()
                    &&& final(self).vaos() == old(self).vaos()
                    &&& final(self).transform_feedbacks() == old(self).transform_feedbacks()
                    &&& Gpu::same_bindings(*old(self), *final(self))
                    &&& Gpu::same_counters(*old(self), *final(self))
                    &&& final(self).log() == old(self).log().push(
                        GpuCommand::CreateBuffer { buffer: h },
                    )
                },
                None => *final(self) == *old(self),
            },
    {
        if self.next_handle == u64::MAX {
            proof {
                Gpu::lemma_extends_refl(*self);
            }
            return None;
        }
        let h = self.next_handle;
        self.next_handle = self.next_handle + 1;
        self.buffers.insert(h, Vec::new());
        self.commands.push(GpuCommand::CreateBuffer { buffer: h });
        proof {
            assert(final(self).log().subrange(0, old(self).log().len() as int)
                =~= old(self).log());
        }
        Some(h)
    }

    /// Creates a texture object.  `None` exactly when handles ran out.
    pub fn create_texture(&mut self) -> (r: Option<u64>)
        requires
            old(self).wf(),
        ensures
            final(self).wf(),
            Gpu::extends(*old(self), *final(self)),
            r is None <==> old(self).spec_next_handle() == u64::MAX,
            match r {
                Some(h) => {
                    &&& h == old(self).spec_next_handle()
                    &&& final(self).spec_next_handle() == old(self).spec_next_handle() + 1
                    &&& !old(self).textures().contains_key(h)
                    &&& final(self).textures().contains_key(h)
                    &&& forall|h2: u64| h2 != h ==> #[trigger] final(self).textures().contains_key(
                        h2,
                    ) == old(self).textures().contains_key(h2)
                    &&& final(self).shaders() == old(self).shaders()
                    &&& final(self).programs() == old(self).programs()
                    &&& final(self).buffers() == old(self).buffers()
                    &&& final(self).framebuffers() == old(self).framebuffers()
                    &&& final(self).vaos() == old(self).vaos()
                    &&& final(self).transform_feedbacks() == old(self).transform_feedbacks()
                    &&& Gpu::same_bindings(*old(self), *final(self))
                    &&& Gpu::same_counters(*old(self), *final(self))
                    &&& final(self).log() == old(self).log().push(
                        GpuCommand::CreateTexture { texture: h },
                    )
                },
                None => *final(self) == *old(self),
            },
    {
        if self.next_handle == u64::MAX {
            proof {
                Gpu::lemma_extends_refl(*self);
            }
            return None;
        }
        let h = self.next_handle;
        self.next_handle = self.next_handle + 1;
        self.textures.insert(h, ());
        self.commands.push(GpuCommand::CreateTexture { texture: h });
        proof {
            assert(final(self).log().subrange(0, old(self).log().len() as int)
                =~= old(self).log());
        }
        Some(h)
    }

    /// Creates a framebuffer object with no attachment.  `None` exactly
    /// when handles ran out.
    pub fn create_framebuffer(&mut self) -> (r: Option<u64>)
        requires
            old(self).wf(),
        ensures
            final(self).wf(),
            Gpu::extends(*old(self), *final(self)),
            r is None <==> old(self).spec_next_handle() == u64::MAX,
            match r {
                Some(h) => {
                    &&& h == old(self).spec_next_handle()
                    &&& final(self).spec_next_handle() == old(self).spec_next_handle() + 1
                    &&& !old(self).framebuffers().contains_key(h)
                    &&& final(self).framebuffers().contains_key(h)
                    &&& final(self).framebuffers().spec_get(h) is None
                    &&& forall|h2: u64| h2 != h
                        ==> #[trigger] final(self).framebuffers().contains_key(h2) == old(
                        self,
                    ).framebuffers().contains_key(h2)
                    &&& forall|h2: u64| h2 != h && old(self).framebuffers().contains_key(h2)
                        ==> #[trigger] final(self).framebuffers().spec_get(h2) == old(
                        self,
                    ).framebuffers().spec_get(h2)
                    &&& final(self).shaders() == old(self).shaders()
                    &&& final(self).programs() == old(self).programs()
                    &&& final(self).buffers() == old(self).buffers()
                    &&& final(self).textures() == old(self).textures()
                    &&& final(self).vaos() == old(self).vaos()
                    &&& final(self).transform_feedbacks() == old(self).transform_feedbacks()
                    &&& Gpu::same_bindings(*old(self), *final(self))
                    &&& Gpu::same_counters(*old(self), *final(self))
                    &&& final(self).log() == old(self).log().push(
                        GpuCommand::CreateFramebuffer { framebuffer: h },
                    )
                },
                None => *final(self) == *old(self),
            },
    {
        if self.next_handle == u64::MAX {
            proof {
                Gpu::lemma_extends_refl(*self);
            }
            return None;
        }
        let h = self.next_handle;
        self.next_handle = self.next_handle + 1;
        self.framebuffers.insert(h, None);
        self.commands.push(GpuCommand::CreateFramebuffer { framebuffer: h });
        proof {
            assert(final(self).log().subrange(0, old(self).log().len() as int)
                =~= old(self).log());
        }
        Some(h)
    }

    /// Creates a vertex array object.  `None` exactly when handles ran
    /// out.
    pub fn create_vertex_array(&mut self) -> (r: Option<u64>)
        requires
            old(self).wf(),
        ensures
            final(self).wf(),
            Gpu::extends(*old(self), *final(self)),
            r is None <==> old(self).spec_next_handle() == u64::MAX,
            match r {
                Some(h) => {
                    &&& h == old(self).spec_next_handle()
                    &&& final(self).spec_next_handle() == old(self).spec_next_handle() + 1
                    &&& !old(self).vaos().contains_key(h)
                    &&& final(self).vaos().contains_key(h)
                    &&& forall|h2: u64| h2 != h ==> #[trigger] final(self).vaos().contains_key(h2)
                        == old(self).vaos().contains_key(h2)
                    &&& final(self).shaders() == old(self).shaders()
                    &&& final(self).programs() == old(self).programs()
                    &&& final(self).buffers() == old(self).buffers()
                    &&& final(self).textures() == old(self).textures()
                    &&& final(self).framebuffers() == old(self).framebuffers()
                    &&& final(self).transform_feedbacks() == old(self).transform_feedbacks()
                    &&& Gpu::same_bindings(*old(self), *final(self))
                    &&& Gpu::same_counters(*old(self), *final(self))
                    &&& final(self).log() == old(self).log().push(
                        GpuCommand::CreateVertexArray { vao: h },
                    )
                },
                None => *final(self) == *old(self),
            },
    {
        if self.next_handle == u64::MAX {
            proof {
                Gpu::lemma_extends_refl(*self);
            }
            return None;
        }
        let h = self.next_handle;
        self.next_handle = self.next_handle + 1;
        self.vaos.insert(h, ());
        self.commands.push(GpuCommand::CreateVertexArray { vao: h });
        proof {
            assert(final(self).log().subrange(0, old(self).log().len() as int)
                =~= old(self).log());
        }
        Some(h)
    }

    /// Creates a transform-feedback object.  `None` exactly when handles
    /// ran out.
    pub fn create_transform_feedback(&mut self) -> (r: Option<u64>)
        requires
            old(self).wf(),
        ensures
            final(self).wf(),
            Gpu::extends(*old(self), *final(self)),
            r is None <==> old(self).spec_next_handle() == u64::MAX,
            match r {
                Some(h) => {
                    &&& h == old(self).spec_next_handle()
                    &&& final(self).spec_next_handle() == old(self).spec_next_handle() + 1
                    &&& !old(self).transform_feedbacks().contains_key(h)
                    &&& final(self).transform_feedbacks().contains_key(h)
                    &&& forall|h2: u64| h2 != h
                        ==> #[trigger] final(self).transform_feedbacks().contains_key(h2) == old(
                        self,
                    ).transform_feedbacks().contains_key(h2)
                    &&& final(self).shaders() == old(self).shaders()
                    &&& final(self).programs() == old(self).programs()
                    &&& final(self).buffers() == old(self).buffers()
                    &&& final(self).textures() == old(self).textures()
                    &&& final(self).framebuffers() == old(self).framebuffers()
                    &&& final(self).vaos() == old(self).vaos()
                    &&& Gpu::same_bindings(*old(self), *final(self))
                    &&& Gpu::same_counters(*old(self), *final(self))
                    &&& final(self).log() == old(self).log().push(
                        GpuCommand::CreateTransformFeedback { transform_feedback: h },
                    )
                },
                None => *final(self) == *old(self),
            },
    {
        if self.next_handle == u64::MAX {
            proof {
                Gpu::lemma_extends_refl(*self);
            }
            return None;
        }
        let h = self.next_handle;
        self.next_handle = self.next_handle + 1;
        self.transform_feedbacks.insert(h, ());
        self.commands.push(GpuCommand::CreateTransformFeedback { transform_feedback: h });
        proof {
            assert(final(self).log().subrange(0, old(self).log().len() as int)
                =~= old(self).log());
        }
        Some(h)
    }

    /// Makes a program (or none) current.
    pub fn use_program(&mut self, program: Option<u64>)
        requires
            old(self).wf(),
            program is Some ==> old(self).programs().contains_key(program.unwrap()),
        ensures
            final(self).wf(),
            Gpu::extends(*old(self), *final(self)),
            Gpu::same_objects(*old(self), *final(self)),
            Gpu::same_counters(*old(self), *final(self)),
            final(self).spec_bound_program() == program,
            final(self).spec_bound_vao() == old(self).spec_bound_vao(),
            final(self).spec_bound_array_buffer() == old(self).spec_bound_array_buffer(),
            final(self).spec_bound_framebuffer() == old(self).spec_bound_framebuffer(),
            final(self).log() == old(self).log().push(GpuCommand::UseProgram { program }),
    {
        self.bound_program = program;
        self.commands.push(GpuCommand::UseProgram { program });
        proof {
            assert(final(self).log().subrange(0, old(self).log().len() as int)
                =~= old(self).log());
        }
    }

    /// Makes a vertex array object (or none) current.
    pub fn bind_vertex_array(&mut self, vao: Option<u64>)
        requires
            old(self).wf(),
            vao is Some ==> old(self).vaos().contains_key(vao.unwrap()),
        ensures
            final(self).wf(),
            Gpu::extends(*old(self), *final(self)),
            Gpu::same_objects(*old(self), *final(self)),
            Gpu::same_counters(*old(self), *final(self)),
            final(self).spec_bound_vao() == vao,
            final(self).spec_bound_program() == old(self).spec_bound_program(),
            final(self).spec_bound_array_buffer() == old(self).spec_bound_array_buffer(),
            final(self).spec_bound_framebuffer() == old(self).spec_bound_framebuffer(),
            final(self).log() == old(self).log().push(GpuCommand::BindVertexArray { vao }),
    {
        self.bound_vao = vao;
        self.commands.push(GpuCommand::BindVertexArray { vao });
        proof {
            assert(final(self).log().subrange(0, old(self).log().len() as int)
                =~= old(self).log());
        }
    }

    /// Binds a buffer (or none) to the array-buffer target.
    pub fn bind_buffer(&mut self, buffer: Option<u64>)
        requires
            old(self).wf(),
            buffer is Some ==> old(self).buffers().contains_key(buffer.unwrap()),
        ensures
            final(self).wf(),
            Gpu::extends(*old(self), *final(self)),
            Gpu::same_objects(*old(self), *final(self)),
            Gpu::same_counters(*old(self), *final(self)),
            final(self).spec_bound_array_buffer() == buffer,
            final(self).spec_bound_program() == old(self).spec_bound_program(),
            final(self).spec_bound_vao() == old(self).spec_bound_vao(),
            final(self).spec_bound_framebuffer() == old(self).spec_bound_framebuffer(),
            final(self).log() == old(self).log().push(GpuCommand::BindArrayBuffer { buffer }),
    {
        self.bound_array_buffer = buffer;
        self.commands.push(GpuCommand::BindArrayBuffer { buffer });
        proof {
            assert(final(self).log().subrange(0, old(self).log().len() as int)
                =~= old(self).log());
        }
    }

    /// Makes a framebuffer (or none, the canvas) current.
    pub fn bind_framebuffer(&mut self, framebuffer: Option<u64>)
        requires
            old(self).wf(),
            framebuffer is Some ==> old(self).framebuffers().contains_key(framebuffer.unwrap()),
        ensures
            final(self).wf(),
            Gpu::extends(*old(self), *final(self)),
            Gpu::same_objects(*old(self), *final(self)),
            Gpu::same_counters(*old(self), *final(self)),
            final(self).spec_bound_framebuffer() == framebuffer,
            final(self).spec_bound_program() == old(self).spec_bound_program(),
            final(self).spec_bound_vao() == old(self).spec_bound_vao(),
            final(self).spec_bound_array_buffer() == old(self).spec_bound_array_buffer(),
            final(self).log() == old(self).log().push(
                GpuCommand::BindFramebuffer { framebuffer },
            ),
    {
        self.bound_framebuffer = framebuffer;
        self.commands.push(GpuCommand::BindFramebuffer { framebuffer });
        proof {
            assert(final(self).log().subrange(0, old(self).log().len() as int)
                =~= old(self).log());
        }
    }

    /// Attaches a texture (or none) to the currently bound framebuffer.
    pub fn framebuffer_texture(&mut self, texture: Option<u64>)
        requires
            old(self).wf(),
            old(self).spec_bound_framebuffer() is Some,
            old(self).framebuffers().contains_key(old(self).spec_bound_framebuffer().unwrap()),
            texture is Some ==> old(self).textures().contains_key(texture.unwrap()),
        ensures
            final(self).wf(),
            Gpu::extends(*old(self), *final(self)),
            Gpu::same_bindings(*old(self), *final(self)),
            Gpu::same_counters(*old(self), *final(self)),
            final(self).shaders() == old(self).shaders(),
            final(self).programs() == old(self).programs(),
            final(self).buffers() == old(self).buffers(),
            final(self).textures() == old(self).textures(),
            final(self).vaos() == old(self).vaos(),
            final(self).transform_feedbacks() == old(self).transform_feedbacks(),
            final(self).spec_next_handle() == old(self).spec_next_handle(),
            final(self).framebuffers().contains_key(old(self).spec_bound_framebuffer().unwrap()),
            final(self).framebuffers().spec_get(old(self).spec_bound_framebuffer().unwrap())
                == texture,
            forall|h2: u64| h2 != old(self).spec_bound_framebuffer().unwrap()
                ==> #[trigger] final(self).framebuffers().contains_key(h2) == old(
                self,
            ).framebuffers().contains_key(h2),
            forall|h2: u64| h2 != old(self).spec_bound_framebuffer().unwrap() && old(
                self,
            ).framebuffers().contains_key(h2) ==> #[trigger] final(self).framebuffers().spec_get(
                h2,
            ) == old(self).framebuffers().spec_get(h2),
            final(self).log() == old(self).log().push(GpuCommand::FramebufferTexture { texture }),
    {
        let fb = match self.bound_framebuffer {
            Some(fb) => fb,
            None => {
                proof {
                    assert(false);
                }
                vstd::pervasive::unreached()
            },
        };
        self.framebuffers.insert(fb, texture);
        self.commands.push(GpuCommand::FramebufferTexture { texture });
        proof {
            assert(final(self).log().subrange(0, old(self).log().len() as int)
                =~= old(self).log());
        }
    }

    /// Enables a vertex attribute slot; recorded in the log only.
    pub fn enable_vertex_attrib_array(&mut self, location: u32)
        requires
            old(self).wf(),
        ensures
            final(self).wf(),
            Gpu::extends(*old(self), *final(self)),
            Gpu::same_objects(*old(self), *final(self)),
            Gpu::same_bindings(*old(self), *final(self)),
            Gpu::same_counters(*old(self), *final(self)),
            final(self).log() == old(self).log().push(
                GpuCommand::EnableVertexAttribArray { location },
            ),
    {
        self.commands.push(GpuCommand::EnableVertexAttribArray { location });
        proof {
            assert(final(self).log().subrange(0, old(self).log().len() as int)
                =~= old(self).log());
        }
    }

    /// Describes the layout of the attribute at `location`; recorded in
    /// the log only.
    pub fn vertex_attrib_pointer(&mut self, location: u32, size: u32, stride: u32, offset: u32)
        requires
            old(self).wf(),
        ensures
            final(self).wf(),
            Gpu::extends(*old(self), *final(self)),
            Gpu::same_objects(*old(self), *final(self)),
            Gpu::same_bindings(*old(self), *final(self)),
            Gpu::same_counters(*old(self), *final(self)),
            final(self).log() == old(self).log().push(
                GpuCommand::VertexAttribPointer { location, size, stride, offset },
            ),
    {
        self.commands.push(GpuCommand::VertexAttribPointer { location, size, stride, offset });
        proof {
            assert(final(self).log().subrange(0, old(self).log().len() as int)
                =~= old(self).log());
        }
    }

    /// Fills the buffer bound to the array-buffer target.
    pub fn buffer_data(&mut self, data: Vec<u8>)
        requires
            old(self).wf(),
            old(self).spec_bound_array_buffer() is Some,
            old(self).buffers().contains_key(old(self).spec_bound_array_buffer().unwrap()),
        ensures
            final(self).wf(),
            Gpu::extends(*old(self), *final(self)),
            Gpu::same_bindings(*old(self), *final(self)),
            Gpu::same_counters(*old(self), *final(self)),
            final(self).shaders() == old(self).shaders(),
            final(self).programs() == old(self).programs(),
            final(self).textures() == old(self).textures(),
            final(self).framebuffers() == old(self).framebuffers(),
            final(self).vaos() == old(self).vaos(),
            final(self).transform_feedbacks() == old(self).transform_feedbacks(),
            final(self).spec_next_handle() == old(self).spec_next_handle(),
            final(self).buffers().contains_key(old(self).spec_bound_array_buffer().unwrap()),
            final(self).buffers().spec_get(old(self).spec_bound_array_buffer().unwrap())
                == data,
            forall|h2: u64| h2 != old(self).spec_bound_array_buffer().unwrap()
                ==> #[trigger] final(self).buffers().contains_key(h2) == old(
                self,
            ).buffers().contains_key(h2),
            forall|h2: u64| h2 != old(self).spec_bound_array_buffer().unwrap() && old(
                self,
            ).buffers().contains_key(h2) ==> #[trigger] final(self).buffers().spec_get(h2) == old(
                self,
            ).buffers().spec_get(h2),
            final(self).log().len() == old(self).log().len() + 1,
            final(self).log().subrange(0, old(self).log().len() as int) == old(self).log(),
            (final(self).log().last() matches GpuCommand::BufferData { buffer: b2, data: d2 }
                && b2 == old(self).spec_bound_array_buffer().unwrap() && d2@ == data@),
    {
        let b = match self.bound_array_buffer {
            Some(b) => b,
            None => {
                proof {
                    assert(false);
                }
                vstd::pervasive::unreached()
            },
        };
        let logged = clone_bytes(&data);
        self.buffers.insert(b, data);
        self.commands.push(GpuCommand::BufferData { buffer: b, data: logged });
        proof {
            assert(final(self).log().subrange(0, old(self).log().len() as int)
                =~= old(self).log());
        }
    }

    /// Sets a uniform of the currently active program to the given raw
    /// words.
    pub fn set_uniform(&mut self, location: u64, words: Vec<u32>)
        requires
            old(self).wf(),
            old(self).spec_bound_program() is Some,
            old(self).programs().contains_key(old(self).spec_bound_program().unwrap()),
        ensures
            final(self).wf(),
            Gpu::extends(*old(self), *final(self)),
            Gpu::same_bindings(*old(self), *final(self)),
            Gpu::same_counters(*old(self), *final(self)),
            Gpu::same_objects_except_programs(*old(self), *final(self)),
            final(self).spec_next_handle() == old(self).spec_next_handle(),
            ({
                let p = old(self).spec_bound_program().unwrap();
                let pre_obj = old(self).programs().spec_get(p);
                let post_obj = final(self).programs().spec_get(p);
                &&& final(self).programs().contains_key(p)
                &&& post_obj.vertex_shader == pre_obj.vertex_shader
                &&& post_obj.fragment_shader == pre_obj.fragment_shader
                &&& post_obj.tf_varyings == pre_obj.tf_varyings
                &&& post_obj.linked == pre_obj.linked
                &&& post_obj.vertex_source == pre_obj.vertex_source
                &&& post_obj.fragment_source == pre_obj.fragment_source
                &&& post_obj.uniform_values.contains_key(location)
                &&& post_obj.uniform_values.spec_get(location) == words
                &&& forall|l2: u64| l2 != location
                    ==> #[trigger] post_obj.uniform_values.contains_key(l2)
                    == pre_obj.uniform_values.contains_key(l2)
                &&& forall|l2: u64| l2 != location && pre_obj.uniform_values.contains_key(l2)
                    ==> #[trigger] post_obj.uniform_values.spec_get(l2)
                    == pre_obj.uniform_values.spec_get(l2)
            }),
            forall|h2: u64| h2 != old(self).spec_bound_program().unwrap()
                ==> #[trigger] final(self).programs().contains_key(h2) == old(
                self,
            ).programs().contains_key(h2),
            forall|h2: u64| h2 != old(self).spec_bound_program().unwrap() && old(
                self,
            ).programs().contains_key(h2) ==> #[trigger] final(self).programs().spec_get(h2)
                == old(self).programs().spec_get(h2),
            final(self).log().len() == old(self).log().len() + 1,
            final(self).log().subrange(0, old(self).log().len() as int) == old(self).log(),
            (final(self).log().last() matches GpuCommand::SetUniform {
                program: p2,
                location: l2,
                words: w2,
            } && p2 == old(self).spec_bound_program().unwrap() && l2 == location
                && w2@ == words@),
    {
        let p = match self.bound_program {
            Some(p) => p,
            None => {
                proof {
                    assert(false);
                }
                vstd::pervasive::unreached()
            },
        };
        let i = match self.programs.find(&p) {
            Some(i) => i,
            None => {
                proof {
                    assert(false);
                }
                vstd::pervasive::unreached()
            },
        };
        let logged = clone_words(&words);
        let (key, mut obj) = self.programs.remove_at(i);
        obj.uniform_values.insert(location, words);
        self.programs.insert_at(i, key, obj);
        self.commands.push(GpuCommand::SetUniform { program: p, location, words: logged });
        proof {
            assert(final(self).log().subrange(0, old(self).log().len() as int)
                =~= old(self).log());
        }
    }

    /// The raw words last given to a uniform of a program, if any.
    pub fn uniform_value(&self, program: u64, location: u64) -> (r: Option<&Vec<u32>>)
        requires
            self.wf(),
        ensures
            match r {
                Some(v) => self.programs().contains_key(program)
                    && self.programs().spec_get(program).uniform_values.contains_key(location)
                    && *v == self.programs().spec_get(program).uniform_values.spec_get(location),
                None => !self.programs().contains_key(program)
                    || !self.programs().spec_get(program).uniform_values.contains_key(location),
            },
    {
        match self.programs.get(&program) {
            Some(obj) => obj.uniform_values.get(&location),
            None => None,
        }
    }

    /// Issues a draw call; recorded in the log, counted by the draw
    /// counter.
    pub fn draw_arrays(&mut self, mode: u32, first: i32, count: u32)
        requires
            old(self).wf(),
        ensures
            final(self).wf(),
            Gpu::extends(*old(self), *final(self)),
            Gpu::same_objects(*old(self), *final(self)),
            Gpu::same_bindings(*old(self), *final(self)),
            final(self).spec_time() == old(self).spec_time(),
            final(self).spec_draw_calls() == old(self).spec_draw_calls() + 1,
            final(self).log() == old(self).log().push(
                GpuCommand::DrawArrays { mode, first, count },
            ),
    {
        self.commands.push(GpuCommand::DrawArrays { mode, first, count });
        let n = self.commands.len();
        proof {
            assert(self.draw_calls + 1 <= n as u64);
        }
        self.draw_calls = self.draw_calls + 1;
        proof {
            assert(final(self).log().subrange(0, old(self).log().len() as int)
                =~= old(self).log());
        }
    }

    /// Clears the given buffers; recorded in the log only.
    pub fn clear(&mut self, mask: u32)
        requires
            old(self).wf(),
        ensures
            final(self).wf(),
            Gpu::extends(*old(self), *final(self)),
            Gpu::same_objects(*old(self), *final(self)),
            Gpu::same_bindings(*old(self), *final(self)),
            Gpu::same_counters(*old(self), *final(self)),
            final(self).log() == old(self).log().push(GpuCommand::Clear { mask }),
    {
        self.commands.push(GpuCommand::Clear { mask });
        proof {
            assert(final(self).log().subrange(0, old(self).log().len() as int)
                =~= old(self).log());
        }
    }

    /// Sets the viewport; recorded in the log only.
    pub fn viewport(&mut self, x: i32, y: i32, width: i32, height: i32)
        requires
            old(self).wf(),
        ensures
            final(self).wf(),
            Gpu::extends(*old(self), *final(self)),
            Gpu::same_objects(*old(self), *final(self)),
            Gpu::same_bindings(*old(self), *final(self)),
            Gpu::same_counters(*old(self), *final(self)),
            final(self).log() == old(self).log().push(
                GpuCommand::Viewport { x, y, width, height },
            ),
    {
        self.commands.push(GpuCommand::Viewport { x, y, width, height });
        proof {
            assert(final(self).log().subrange(0, old(self).log().len() as int)
                =~= old(self).log());
        }
    }

    /// The compiler's diagnostic for a shader: present exactly when the
    /// last compile failed.
    pub fn shader_info_log(&self, shader: u64) -> (r: Option<String>)
        requires
            self.wf(),
            self.shaders().contains_key(shader),
        ensures
            r is Some <==> !self.shaders().spec_get(shader).compiled,
    {
        match self.shaders.get(&shader) {
            Some(obj) => {
                if obj.compiled {
                    None
                } else {
                    Some("source rejected: unbalanced braces or oversized source".to_owned())
                }
            },
            None => {
                proof {
                    assert(false);
                }
                vstd::pervasive::unreached()
            },
        }
    }
}

} // verus!
