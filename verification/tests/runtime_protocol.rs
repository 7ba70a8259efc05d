//! The per-frame protocol: uniform updates, gating, animation and
//! recording lifecycle.

use wrend::animation::AnimationHandle;
use wrend::callbacks::SceneCallbacks;
use wrend::canvas::Canvas;
use wrend::gpu::{Gpu, GpuCommand};
use wrend::links::{BufferLink, ProgramLink, UniformLink};
use wrend::renderer::{Renderer, RendererBuilder, Resources};

const VS: &str = "#version 300 es\nin vec2 a_position;\nvoid main() { gl_Position = vec4(a_position, 0.0, 1.0); }";
const FS: &str = "#version 300 es\nprecision mediump float;\nuniform float u_now;\nout vec4 color;\nvoid main() { color = vec4(u_now, 0.0, 0.0, 1.0); }";

/// Initializes the uniform to one value, updates it to another, and
/// admits only the first update: the context counts how often the
/// update callback ran.
struct GatedScene;

impl SceneCallbacks for GatedScene {
    type Ctx = u32;

    fn initialize_uniform(
        &self,
        gpu: &mut Gpu,
        _now: u64,
        _ctx: &mut Option<u32>,
        location: u64,
        _uniform_id: &String,
    ) {
        gpu.set_uniform(location, vec![7]);
    }

    fn update_uniform(
        &self,
        gpu: &mut Gpu,
        _now: u64,
        ctx: &mut Option<u32>,
        location: u64,
        _uniform_id: &String,
    ) {
        gpu.set_uniform(location, vec![99]);
        if let Some(count) = ctx.as_mut() {
            *count += 1;
        }
    }

    fn should_update_uniform(
        &self,
        _gpu: &Gpu,
        _now: u64,
        ctx: &Option<u32>,
        _location: u64,
        _uniform_id: &String,
    ) -> bool {
        matches!(ctx, Some(0))
    }
}

fn gated_renderer() -> Renderer<GatedScene> {
    let mut builder: RendererBuilder<GatedScene> = RendererBuilder::new();
    builder.set_canvas(Canvas::new(64, 64));
    builder.add_vertex_shader_src("vs".to_string(), VS.to_string());
    builder.add_fragment_shader_src("fs".to_string(), FS.to_string());
    builder.add_program_link(ProgramLink::new(
        "main".to_string(),
        "vs".to_string(),
        "fs".to_string(),
    ));
    builder.add_uniform_link(UniformLink::new(vec!["main".to_string()], "u_now".to_string()));
    builder.set_render_callback(GatedScene);
    builder.set_user_ctx(0u32);
    builder.build().unwrap()
}

#[test]
fn initialize_callback_runs_once_per_owning_program() {
    let renderer = gated_renderer();
    let program = *renderer.programs().get(&"main".to_string()).unwrap();
    let uniform = renderer.uniforms().get(&"u_now".to_string()).unwrap();
    let location = *uniform.location(&"main".to_string()).unwrap();
    assert_eq!(renderer.gpu().uniform_value(program, location), Some(&vec![7]));
}

#[test]
fn gated_update_runs_once_and_then_leaves_the_device_untouched() {
    let mut renderer = gated_renderer();
    let program = *renderer.programs().get(&"main".to_string()).unwrap();
    let uniform = renderer.uniforms().get(&"u_now".to_string()).unwrap();
    let location = *uniform.location(&"main".to_string()).unwrap();

    // first pass: the predicate admits the update
    renderer.update_uniforms();
    assert_eq!(renderer.gpu().uniform_value(program, location), Some(&vec![99]));
    assert_eq!(renderer.user_ctx(), Some(&1));

    // second pass, no intervening state change: the predicate declines,
    // the update callback does not run, and the device log is untouched
    let log_len = renderer.gpu().commands().len();
    renderer.update_uniforms();
    assert_eq!(renderer.gpu().uniform_value(program, location), Some(&vec![99]));
    assert_eq!(renderer.user_ctx(), Some(&1));
    assert_eq!(renderer.gpu().commands().len(), log_len);
}

#[test]
fn update_activates_the_owning_program_around_the_callback() {
    let mut renderer = gated_renderer();
    let program = *renderer.programs().get(&"main".to_string()).unwrap();
    let before = renderer.gpu().commands().len();
    renderer.update_uniform(&"u_now".to_string());
    let commands = renderer.gpu().commands();
    assert_eq!(commands[before], GpuCommand::UseProgram { program: Some(program) });
    assert_eq!(commands[commands.len() - 1], GpuCommand::UseProgram { program: None });
}

/// Draws one triangle on every animation frame.
struct PulseScene;

impl SceneCallbacks for PulseScene {
    type Ctx = ();

    fn should_update_uniform(
        &self,
        _gpu: &Gpu,
        _now: u64,
        _ctx: &Option<()>,
        _location: u64,
        _uniform_id: &String,
    ) -> bool {
        true
    }

    fn animate(
        &self,
        gpu: &mut Gpu,
        _now: u64,
        _resources: &Resources,
        _ctx: &mut Option<()>,
    ) {
        gpu.draw_arrays(4, 0, 3);
    }
}

fn pulse_handle() -> AnimationHandle<PulseScene> {
    let mut builder: RendererBuilder<PulseScene> = RendererBuilder::new();
    builder.set_canvas(Canvas::new(64, 64));
    builder.set_render_callback(PulseScene);
    builder.build().unwrap().into_animation_handle()
}

#[test]
fn start_then_stop_invokes_the_animation_callback_zero_times() {
    let mut handle = pulse_handle();
    let log_len = handle.renderer().gpu().commands().len();
    handle.start_animating();
    handle.stop_animating();
    assert_eq!(handle.frames_played(), 0);
    assert_eq!(handle.renderer().gpu().draw_count(), 0);
    assert_eq!(handle.renderer().gpu().commands().len(), log_len);
}

#[test]
fn ticks_drive_frames_only_while_animating() {
    let mut handle = pulse_handle();
    handle.tick(1);
    assert_eq!(handle.frames_played(), 0);
    assert_eq!(handle.renderer().gpu().draw_count(), 0);

    handle.start_animating();
    handle.tick(2);
    handle.tick(3);
    assert_eq!(handle.frames_played(), 2);
    assert_eq!(handle.renderer().gpu().draw_count(), 2);

    handle.stop_animating();
    handle.tick(4);
    assert_eq!(handle.frames_played(), 2);
    assert_eq!(handle.renderer().gpu().draw_count(), 2);
}

#[test]
fn stopping_a_recording_hands_out_the_captured_frames() {
    let mut handle = pulse_handle();
    handle.start_animating();
    handle.tick(10);
    handle.start_recording();
    assert!(handle.is_recording());
    handle.tick(20);
    handle.tick(30);
    let frames = handle.stop_recording();
    assert_eq!(frames, vec![20, 30]);
    assert!(!handle.is_recording());
    // capture store drained; a later recording starts fresh
    handle.start_recording();
    handle.tick(40);
    assert_eq!(handle.stop_recording(), vec![40]);
}

#[test]
fn animation_state_queries_reflect_the_flags() {
    let mut handle = pulse_handle();
    assert!(!handle.is_animating());
    handle.start_animating();
    assert!(handle.is_animating());
    handle.start_animating();
    assert!(handle.is_animating());
    handle.stop_animating();
    assert!(!handle.is_animating());
}

#[test]
fn init_callback_reused_for_updates_when_the_link_asks() {
    let mut builder: RendererBuilder<GatedScene> = RendererBuilder::new();
    builder.set_canvas(Canvas::new(64, 64));
    builder.add_vertex_shader_src("vs".to_string(), VS.to_string());
    builder.add_fragment_shader_src("fs".to_string(), FS.to_string());
    builder.add_program_link(ProgramLink::new(
        "main".to_string(),
        "vs".to_string(),
        "fs".to_string(),
    ));
    let mut link = UniformLink::new(vec!["main".to_string()], "u_now".to_string());
    link.set_use_init_callback_for_update(true);
    builder.add_uniform_link(link);
    builder.set_render_callback(GatedScene);
    builder.set_user_ctx(0u32);
    let mut renderer = builder.build().unwrap();

    let program = *renderer.programs().get(&"main".to_string()).unwrap();
    let uniform = renderer.uniforms().get(&"u_now".to_string()).unwrap();
    assert!(uniform.use_init_callback_for_update());
    let location = *uniform.location(&"main".to_string()).unwrap();

    // the update runs the initialize callback again, so the value stays
    // the initial one and the update counter is untouched
    renderer.update_uniform(&"u_now".to_string());
    assert_eq!(renderer.gpu().uniform_value(program, location), Some(&vec![7]));
    assert_eq!(renderer.user_ctx(), Some(&0));
}

#[test]
fn shared_uniform_is_initialized_per_owning_program() {
    let mut builder: RendererBuilder<GatedScene> = RendererBuilder::new();
    builder.set_canvas(Canvas::new(64, 64));
    builder.add_vertex_shader_src("vs".to_string(), VS.to_string());
    builder.add_fragment_shader_src("fs".to_string(), FS.to_string());
    builder.add_program_link(ProgramLink::new(
        "first".to_string(),
        "vs".to_string(),
        "fs".to_string(),
    ));
    builder.add_program_link(ProgramLink::new(
        "second".to_string(),
        "vs".to_string(),
        "fs".to_string(),
    ));
    builder.add_uniform_link(UniformLink::new(
        vec!["first".to_string(), "second".to_string()],
        "u_now".to_string(),
    ));
    builder.set_render_callback(GatedScene);
    builder.set_user_ctx(0u32);
    let renderer = builder.build().unwrap();

    let uniform = renderer.uniforms().get(&"u_now".to_string()).unwrap();
    for id in ["first", "second"] {
        let program = *renderer.programs().get(&id.to_string()).unwrap();
        let location = *uniform.location(&id.to_string()).unwrap();
        assert_eq!(renderer.gpu().uniform_value(program, location), Some(&vec![7]));
    }
}

#[test]
fn handle_render_draws_without_ticking() {
    let mut handle = pulse_handle();
    handle.render();
    // PulseScene has no render behaviour of its own: nothing drawn
    assert_eq!(handle.renderer().gpu().draw_count(), 0);
    assert_eq!(handle.frames_played(), 0);
}
