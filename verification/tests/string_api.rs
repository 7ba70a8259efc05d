//! The string-addressed wrappers, the device model's text scanning, and
//! the canvas configuration types.

use wrend::canvas::{Canvas, ContextAttributes};
use wrend::gpu::Gpu;
use wrend::interop::{BufferLinkJs, JsProgramLink, TextureJs, TextureLinkJs, UniformLinkJs};
use wrend::resources::Texture;
use wrend::source_text::{check_braces, contains_word};

#[test]
fn js_program_link_exposes_its_identifiers() {
    let link = JsProgramLink::new(
        "quad".to_string(),
        "pass-through".to_string(),
        "solid-red".to_string(),
    );
    assert_eq!(link.program_id(), "quad");
    assert_eq!(link.vertex_shader_id(), "pass-through");
    assert_eq!(link.fragment_shader_id(), "solid-red");
    assert!(link.transform_feedback_varyings().is_empty());
    let inner = link.inner();
    assert_eq!(inner.program_id(), "quad");
}

#[test]
fn js_program_link_builder_collects_the_identifiers() {
    let mut builder = JsProgramLink::builder();
    builder.set_program_id("quad".to_string());
    builder.set_vertex_shader_id("pass-through".to_string());
    builder.set_fragment_shader_id("solid-red".to_string());
    let link = builder.build();
    assert_eq!(link.program_id(), "quad");
    assert_eq!(link.vertex_shader_id(), "pass-through");
    assert_eq!(link.fragment_shader_id(), "solid-red");
}

#[test]
fn buffer_link_js_unwraps_to_its_link() {
    let link = BufferLinkJs::new("quad-vertices".to_string());
    assert_eq!(link.buffer_id(), "quad-vertices");
    assert_eq!(link.into_inner().buffer_id(), "quad-vertices");
}

#[test]
fn texture_link_js_unwraps_to_its_link() {
    let link = TextureLinkJs::new("render-target".to_string());
    assert_eq!(link.texture_id(), "render-target");
    assert_eq!(link.into_inner().texture_id(), "render-target");
}

#[test]
fn texture_js_exposes_id_and_handle() {
    let texture = TextureJs::new(Texture::new("render-target".to_string(), 17));
    assert_eq!(texture.texture_id(), "render-target");
    assert_eq!(texture.webgl_texture(), 17);
}

#[test]
fn uniform_link_js_round_trips_its_settings() {
    let mut link = UniformLinkJs::new(
        vec!["main".to_string(), "other".to_string()],
        "u_now".to_string(),
    );
    assert_eq!(link.uniform_id(), "u_now");
    assert_eq!(link.program_ids(), vec!["main".to_string(), "other".to_string()]);
    assert!(!link.use_init_callback_for_update());
    link.set_use_init_callback_for_update(true);
    assert!(link.use_init_callback_for_update());
    assert!(link.into_inner().use_init_callback_for_update());
}

#[test]
fn whole_word_search_respects_word_boundaries() {
    assert!(contains_word(b"in vec2 a_position;", b"a_position"));
    assert!(contains_word(b"a_position", b"a_position"));
    assert!(!contains_word(b"a_position_padded", b"a_position"));
    assert!(!contains_word(b"xa_position", b"a_position"));
    assert!(!contains_word(b"u_xy", b"u_x"));
    assert!(!contains_word(b"", b"a"));
    assert!(!contains_word(b"abc", b""));
    assert!(contains_word(b"uniform float u_now;", b"u_now"));
}

#[test]
fn brace_balance_is_the_compile_rule() {
    assert!(check_braces(b""));
    assert!(check_braces(b"void main() { }"));
    assert!(check_braces(b"{ { } { } }"));
    assert!(!check_braces(b"{"));
    assert!(!check_braces(b"}{"));
    assert!(!check_braces(b"{ { }"));
}

#[test]
fn canvas_reports_its_configuration() {
    let canvas = Canvas::new(300, 150);
    assert_eq!(canvas.width(), 300);
    assert_eq!(canvas.height(), 150);
    assert!(canvas.context_available());
    let headless = Canvas::new_without_context(1, 1);
    assert!(!headless.context_available());
}

#[test]
fn context_attributes_default_to_discarding_the_buffer() {
    let mut attributes = ContextAttributes::new();
    assert!(!attributes.preserve_drawing_buffer());
    attributes.set_preserve_drawing_buffer(true);
    assert!(attributes.preserve_drawing_buffer());
}

#[test]
fn context_acquisition_mirrors_canvas_support() {
    let attributes = ContextAttributes::new();
    assert!(Gpu::from_canvas(&Canvas::new(2, 2), &attributes).is_some());
    assert!(Gpu::from_canvas(&Canvas::new_without_context(2, 2), &attributes).is_none());
    let gpu = Gpu::from_canvas(&Canvas::new(2, 2), &attributes).unwrap();
    assert_eq!(gpu.drawing_buffer_width(), 2);
    assert_eq!(gpu.drawing_buffer_height(), 2);
    assert!(!gpu.preserve_drawing_buffer());
    assert_eq!(gpu.time(), 0);
    assert!(gpu.commands().is_empty());
}
