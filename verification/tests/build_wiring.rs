//! Build-pipeline wiring: resolution order, error taxonomy, replacement
//! semantics.

use wrend::callbacks::{SceneCallbacks, StandardCallbacks};
use wrend::canvas::Canvas;
use wrend::error::RendererBuilderError;
use wrend::gpu::{Gpu, GpuCommand};
use wrend::links::{
    AttributeLink, BufferLink, FramebufferLink, ProgramLink, TextureLink, TransformFeedbackLink,
    UniformLink,
};
use wrend::renderer::{Renderer, RendererBuilder, Resources};

const VS_PASS_THROUGH: &str = "#version 300 es\nin vec2 a_position;\nvoid main() { gl_Position = vec4(a_position, 0.0, 1.0); }";
const FS_SOLID_RED: &str = "#version 300 es\nprecision mediump float;\nuniform float u_now;\nout vec4 color;\nvoid main() { color = vec4(1.0, 0.0, 0.0, 1.0); }";

struct QuadScene;

impl SceneCallbacks for QuadScene {
    type Ctx = ();

    fn create_buffer(
        &self,
        gpu: &mut Gpu,
        _now: u64,
        _ctx: &mut Option<()>,
        _buffer_id: &String,
    ) -> Option<u64> {
        let b = gpu.create_buffer()?;
        gpu.bind_buffer(Some(b));
        // a full-screen quad: 6 vertices of 2 coordinates, 4 bytes each
        gpu.buffer_data(vec![0u8; 48]);
        gpu.bind_buffer(None);
        Some(b)
    }

    fn should_update_uniform(
        &self,
        _gpu: &Gpu,
        _now: u64,
        _ctx: &Option<()>,
        _location: u64,
        _uniform_id: &String,
    ) -> bool {
        true
    }

    fn render(&self, gpu: &mut Gpu, resources: &Resources, _ctx: &mut Option<()>) {
        let program = *resources.programs.get(&"quad".to_string()).unwrap();
        let vao = *resources.vertex_array_objects.get(&"quad".to_string()).unwrap();
        gpu.use_program(Some(program));
        gpu.bind_vertex_array(Some(vao));
        gpu.draw_arrays(4, 0, 6);
    }
}

fn quad_builder() -> RendererBuilder<QuadScene> {
    let mut builder: RendererBuilder<QuadScene> = Renderer::builder();
    builder.set_canvas(Canvas::new(300, 150));
    builder.add_vertex_shader_src("pass-through".to_string(), VS_PASS_THROUGH.to_string());
    builder.add_fragment_shader_src("solid-red".to_string(), FS_SOLID_RED.to_string());
    builder.add_program_link(ProgramLink::new(
        "quad".to_string(),
        "pass-through".to_string(),
        "solid-red".to_string(),
    ));
    builder.add_buffer_link(BufferLink::new("quad-vertices".to_string()));
    builder.add_attribute_link(AttributeLink::new(
        vec!["quad".to_string()],
        "quad-vertices".to_string(),
        "a_position".to_string(),
    ));
    builder.set_render_callback(QuadScene);
    builder
}

#[test]
fn quad_scene_renders_one_draw_call() {
    let mut renderer = quad_builder().build().unwrap();
    assert_eq!(renderer.gpu().draw_count(), 0);
    renderer.render();
    assert_eq!(renderer.gpu().draw_count(), 1);
    let commands = renderer.gpu().commands();
    assert!(commands.contains(&GpuCommand::DrawArrays { mode: 4, first: 0, count: 6 }));
}

#[test]
fn successful_build_resolves_every_identifier() {
    let mut builder = quad_builder();
    builder.add_uniform_link(UniformLink::new(vec!["quad".to_string()], "u_now".to_string()));
    builder.add_texture_link(TextureLink::new("render-target".to_string()));
    builder.add_framebuffer_link(FramebufferLink::new(
        "offscreen".to_string(),
        Some("render-target".to_string()),
    ));
    builder.add_transform_feedback_link(TransformFeedbackLink::new("capture".to_string()));
    let renderer = builder.build().unwrap();

    assert!(renderer.vertex_shaders().get(&"pass-through".to_string()).is_some());
    assert!(renderer.fragment_shaders().get(&"solid-red".to_string()).is_some());
    assert!(renderer.programs().get(&"quad".to_string()).is_some());
    assert!(renderer.vertex_array_objects().get(&"quad".to_string()).is_some());
    assert!(renderer.buffers().get(&"quad-vertices".to_string()).is_some());
    let attribute = renderer.attributes().get(&"a_position".to_string()).unwrap();
    assert!(attribute.location(&"quad".to_string()).is_some());
    let uniform = renderer.uniforms().get(&"u_now".to_string()).unwrap();
    assert!(uniform.location(&"quad".to_string()).is_some());
    assert!(renderer.textures().get(&"render-target".to_string()).is_some());
    assert!(renderer.framebuffers().get(&"offscreen".to_string()).is_some());
    assert!(renderer.transform_feedbacks().get(&"capture".to_string()).is_some());
}

#[test]
fn missing_canvas_fails_the_build() {
    let mut builder: RendererBuilder<StandardCallbacks> = RendererBuilder::new();
    builder.set_render_callback(StandardCallbacks);
    assert_eq!(
        builder.build().err().unwrap(),
        RendererBuilderError::CanvasReturnedNoContext
    );
}

#[test]
fn canvas_without_context_fails_the_build() {
    let mut builder: RendererBuilder<StandardCallbacks> = RendererBuilder::new();
    builder.set_canvas(Canvas::new_without_context(300, 150));
    builder.set_render_callback(StandardCallbacks);
    assert_eq!(
        builder.build().err().unwrap(),
        RendererBuilderError::WebGL2ContextNotFoundError
    );
}

#[test]
fn missing_render_callback_fails_the_build() {
    let mut builder: RendererBuilder<StandardCallbacks> = RendererBuilder::new();
    builder.set_canvas(Canvas::new(300, 150));
    assert_eq!(
        builder.build().err().unwrap(),
        RendererBuilderError::NoRenderCallbackBuildError
    );
}

#[test]
fn unbalanced_braces_fail_compilation() {
    let mut builder: RendererBuilder<StandardCallbacks> = RendererBuilder::new();
    builder.set_canvas(Canvas::new(300, 150));
    builder.add_fragment_shader_src(
        "broken".to_string(),
        "void main() { {".to_string(),
    );
    builder.set_render_callback(StandardCallbacks);
    match builder.build().err().unwrap() {
        RendererBuilderError::KnownErrorCompileShaderError(reason) => {
            assert!(!reason.is_empty());
        },
        other => panic!("unexpected error: {:?}", other),
    }
}

#[test]
fn program_link_with_unknown_vertex_shader_fails() {
    let mut builder: RendererBuilder<StandardCallbacks> = RendererBuilder::new();
    builder.set_canvas(Canvas::new(300, 150));
    builder.add_fragment_shader_src("solid-red".to_string(), FS_SOLID_RED.to_string());
    builder.add_program_link(ProgramLink::new(
        "quad".to_string(),
        "ghost-vertex".to_string(),
        "solid-red".to_string(),
    ));
    builder.set_render_callback(StandardCallbacks);
    assert_eq!(
        builder.build().err().unwrap(),
        RendererBuilderError::VertexShaderNotFoundLinkProgramError
    );
}

#[test]
fn program_link_with_unknown_fragment_shader_fails() {
    let mut builder: RendererBuilder<StandardCallbacks> = RendererBuilder::new();
    builder.set_canvas(Canvas::new(300, 150));
    builder.add_vertex_shader_src("pass-through".to_string(), VS_PASS_THROUGH.to_string());
    builder.add_program_link(ProgramLink::new(
        "quad".to_string(),
        "pass-through".to_string(),
        "ghost-fragment".to_string(),
    ));
    builder.set_render_callback(StandardCallbacks);
    assert_eq!(
        builder.build().err().unwrap(),
        RendererBuilderError::FragmentShaderNotFoundLinkProgramError
    );
}

#[test]
fn attribute_link_with_unknown_program_fails() {
    let mut builder = quad_builder();
    builder.add_attribute_link(AttributeLink::new(
        vec!["ghost-program".to_string()],
        "quad-vertices".to_string(),
        "a_position".to_string(),
    ));
    assert_eq!(
        builder.build().err().unwrap(),
        RendererBuilderError::ProgramNotFoundCreateAttributeError
    );
}

#[test]
fn attribute_link_with_unknown_buffer_fails() {
    let mut builder = quad_builder();
    builder.add_attribute_link(AttributeLink::new(
        vec!["quad".to_string()],
        "ghost-buffer".to_string(),
        "a_position".to_string(),
    ));
    assert_eq!(
        builder.build().err().unwrap(),
        RendererBuilderError::BufferNotFoundCreateAttributeError
    );
}

#[test]
fn attribute_name_absent_from_program_fails() {
    let mut builder = quad_builder();
    builder.add_attribute_link(AttributeLink::new(
        vec!["quad".to_string()],
        "quad-vertices".to_string(),
        "a_missing".to_string(),
    ));
    assert_eq!(
        builder.build().err().unwrap(),
        RendererBuilderError::AttributeLocationNotFoundCreateAttributeError
    );
}

#[test]
fn uniform_with_unknown_program_fails() {
    let mut builder = quad_builder();
    builder.add_uniform_link(UniformLink::new(
        vec!["ghost-program".to_string()],
        "u_now".to_string(),
    ));
    assert_eq!(
        builder.build().err().unwrap(),
        RendererBuilderError::ProgramNotFoundBuildUniformsError
    );
}

#[test]
fn uniform_name_absent_from_program_fails() {
    let mut builder = quad_builder();
    builder.add_uniform_link(UniformLink::new(
        vec!["quad".to_string()],
        "u_missing".to_string(),
    ));
    match builder.build().err().unwrap() {
        RendererBuilderError::UniformLocationNotFoundBuildUniformsError { uniform_id } => {
            assert_eq!(uniform_id, "u_missing");
        },
        other => panic!("unexpected error: {:?}", other),
    }
}

#[test]
fn framebuffer_with_unregistered_texture_fails() {
    let mut builder = quad_builder();
    builder.add_framebuffer_link(FramebufferLink::new(
        "offscreen".to_string(),
        Some("ghost-texture".to_string()),
    ));
    assert_eq!(
        builder.build().err().unwrap(),
        RendererBuilderError::TextureNotFoundCreateFramebufferError
    );
}

#[test]
fn framebuffer_without_texture_reference_is_valid() {
    let mut builder = quad_builder();
    builder.add_framebuffer_link(FramebufferLink::new("offscreen".to_string(), None));
    let renderer = builder.build().unwrap();
    assert!(renderer.framebuffers().get(&"offscreen".to_string()).is_some());
    // the callback saw no texture handle, so none was attached
    let attach_count = renderer
        .gpu()
        .commands()
        .iter()
        .filter(|c| matches!(c, GpuCommand::FramebufferTexture { .. }))
        .count();
    assert_eq!(attach_count, 0);
}

#[test]
fn framebuffer_with_registered_texture_attaches_it() {
    let mut builder = quad_builder();
    builder.add_texture_link(TextureLink::new("render-target".to_string()));
    builder.add_framebuffer_link(FramebufferLink::new(
        "offscreen".to_string(),
        Some("render-target".to_string()),
    ));
    let renderer = builder.build().unwrap();
    let texture = renderer.textures().get(&"render-target".to_string()).unwrap().webgl_texture();
    assert!(renderer
        .gpu()
        .commands()
        .contains(&GpuCommand::FramebufferTexture { texture: Some(texture) }));
}

#[test]
fn reregistered_source_replaces_the_earlier_one() {
    let mut builder = quad_builder();
    // first registration would not compile; the replacement wins
    builder.add_vertex_shader_src("pass-through".to_string(), "void broken() { {".to_string());
    builder.add_vertex_shader_src("pass-through".to_string(), VS_PASS_THROUGH.to_string());
    assert!(builder.build().is_ok());
}

#[test]
fn reregistered_uniform_link_replaces_the_earlier_one() {
    let mut builder = quad_builder();
    builder.add_uniform_link(UniformLink::new(vec!["quad".to_string()], "u_now".to_string()));
    let mut replacement = UniformLink::new(vec!["quad".to_string()], "u_now".to_string());
    replacement.set_use_init_callback_for_update(true);
    builder.add_uniform_link(replacement);
    let renderer = builder.build().unwrap();
    assert_eq!(renderer.uniforms().len(), 1);
    let uniform = renderer.uniforms().get(&"u_now".to_string()).unwrap();
    assert!(uniform.use_init_callback_for_update());
}

#[test]
fn transform_feedback_varyings_are_recorded() {
    let mut builder = quad_builder();
    let mut link = ProgramLink::new(
        "quad".to_string(),
        "pass-through".to_string(),
        "solid-red".to_string(),
    );
    link.set_transform_feedback_varyings(vec!["v_position".to_string()]);
    builder.add_program_link(link);
    let renderer = builder.build().unwrap();
    let program = *renderer.programs().get(&"quad".to_string()).unwrap();
    assert!(renderer.gpu().commands().iter().any(|c| matches!(
        c,
        GpuCommand::TransformFeedbackVaryings { program: p, varyings }
            if *p == program && varyings == &vec!["v_position".to_string()]
    )));
}

#[test]
fn use_program_with_vao_binds_program_and_vao() {
    let mut renderer = quad_builder().build().unwrap();
    let program = *renderer.programs().get(&"quad".to_string()).unwrap();
    let vao = *renderer.vertex_array_objects().get(&"quad".to_string()).unwrap();
    renderer.use_program_with_vao(&"quad".to_string());
    let commands = renderer.gpu().commands();
    let n = commands.len();
    assert_eq!(commands[n - 2], GpuCommand::UseProgram { program: Some(program) });
    assert_eq!(commands[n - 1], GpuCommand::BindVertexArray { vao: Some(vao) });
}

#[test]
fn error_messages_are_not_empty() {
    assert!(RendererBuilderError::NoCanvasBuildError.message().contains("canvas"));
    assert!(RendererBuilderError::UniformLocationNotFoundBuildUniformsError {
        uniform_id: "u_now".to_string(),
    }
    .message()
    .contains("u_now"));
}

#[test]
fn empty_registration_builds_successfully() {
    let mut builder: RendererBuilder<StandardCallbacks> = RendererBuilder::new();
    builder.set_canvas(Canvas::new(300, 150));
    builder.set_render_callback(StandardCallbacks);
    let renderer = builder.build().unwrap();
    assert_eq!(renderer.programs().len(), 0);
    assert_eq!(renderer.buffers().len(), 0);
}

#[test]
fn build_resolves_uniforms_after_framebuffers() {
    let mut builder = quad_builder();
    builder.add_uniform_link(UniformLink::new(vec!["quad".to_string()], "u_now".to_string()));
    builder.add_texture_link(TextureLink::new("render-target".to_string()));
    builder.add_framebuffer_link(FramebufferLink::new(
        "offscreen".to_string(),
        Some("render-target".to_string()),
    ));
    let renderer = builder.build().unwrap();
    let commands = renderer.gpu().commands();
    let framebuffer_at = commands
        .iter()
        .position(|c| matches!(c, GpuCommand::CreateFramebuffer { .. }))
        .unwrap();
    let uniform_visit_at = commands
        .iter()
        .position(|c| matches!(c, GpuCommand::UseProgram { program: Some(_) }))
        .unwrap();
    assert!(framebuffer_at < uniform_visit_at);
}
