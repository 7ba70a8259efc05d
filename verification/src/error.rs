//! The closed error taxonomy of the build pipeline.
//!
//! Every irrecoverable build-time failure has one case; the build returns
//! the first failure it meets and no partial renderer.  `message` renders
//! a human-readable description.

use vstd::prelude::*;
use vstd::string::StringExecFns;

verus! {

/// A failure reported by a program-creation callback.
#[derive(Debug, Clone, PartialEq, Eq, Hash)]
pub enum CreateProgramError {
    /// The device returned no program object.
    NoProgramReturned,
    /// Linking failed; carries the linker's diagnostic.
    LinkFailed(String),
    /// Linking failed and no diagnostic was available.
    LinkFailedUnknown,
}

impl CreateProgramError {
    /// A human-readable description of the failure.
    pub fn message(&self) -> (r: String) {
        match self {
            CreateProgramError::NoProgramReturned => {
                "Could not create program because the device returned no program object".to_owned()
            },
            CreateProgramError::LinkFailed(reason) => {
                let mut s = "Could not link program. Reason: ".to_owned();
                s.append(reason.as_str());
                s
            },
            CreateProgramError::LinkFailedUnknown => {
                "Could not link program. An unknown error occurred.".to_owned()
            },
        }
    }
}

/// Everything that can make `RendererBuilder::build` fail.
#[derive(Debug, Clone, PartialEq, Eq, Hash)]
pub enum RendererBuilderError {
    WebGL2ContextRetrievalError,
    WebGL2ContextNotFoundError,
    WebGL2TypeConversionError,

    NoCanvasBuildError,
    NoContextBuildError,
    NoRenderCallbackBuildError,

    NoContextCompileShaderError,
    NoShaderReturnedCompilerShaderError,
    KnownErrorCompileShaderError(String),
    UnknownErrorCompilerShaderError,

    NoContextLinkProgramError,
    VertexShaderNotFoundLinkProgramError,
    FragmentShaderNotFoundLinkProgramError,
    NoProgramLinkLinkProgramError,
    NoProgramLinkProgramError,
    NoVaoLinkProgramError,
    CreateProgramLinkProgramError(CreateProgramError),

    NoContextBuildUniformsError,
    ProgramNotFoundBuildUniformsError,
    UniformLocationNotFoundBuildUniformsError { uniform_id: String },

    NoContextInitializeUniformsError,

    CanvasReturnedNoContext,

    AttributeLocationNotFoundCreateAttributeError,
    NoContextCreateAttributeError,
    ProgramNotFoundCreateAttributeError,
    VAONotFoundCreateAttributeError,
    BufferNotFoundCreateAttributeError,

    NoContextCreateTextureError,
    NoTextureReturnedCreateTextureError,

    NoContextCreateFramebufferError,
    NoFramebufferReturnedCreateFramebufferError,
    TextureNotFoundCreateFramebufferError,

    NoBufferReturnedCreateBufferError,

    NoContextBuildTransformFeedbackError,
    TransformFeedbackNotFoundTransformFeedbackError,
}

impl RendererBuilderError {
    /// A failure the device or a callback decided: a handle allocation
    /// came back empty, or the program-creation callback reported an
    /// error.  Every other failure is structural — determined by the
    /// registered links and sources alone.
    pub open spec fn is_device_or_callback_decided(self) -> bool {
        ||| self is NoShaderReturnedCompilerShaderError
        ||| self is NoProgramLinkProgramError
        ||| self is NoVaoLinkProgramError
        ||| self is CreateProgramLinkProgramError
        ||| self is NoBufferReturnedCreateBufferError
        ||| self is NoTextureReturnedCreateTextureError
        ||| self is NoFramebufferReturnedCreateFramebufferError
        ||| self is TransformFeedbackNotFoundTransformFeedbackError
    }

    /// A human-readable description of the failure.
    pub fn message(&self) -> (r: String) {
        match self {
            RendererBuilderError::WebGL2ContextRetrievalError => {
                "Error occurred while trying to get a WebGL2 rendering context from the supplied canvas".to_owned()
            },
            RendererBuilderError::WebGL2ContextNotFoundError => {
                "WebGL2 rendering context could not be acquired from the canvas. The returned value was `None`".to_owned()
            },
            RendererBuilderError::WebGL2TypeConversionError => {
                "The value returned from get_context could not be converted into a `WebGl2RenderingContext`".to_owned()
            },
            RendererBuilderError::NoCanvasBuildError => {
                "Renderer could not be built with canvas, because no canvas was supplied".to_owned()
            },
            RendererBuilderError::NoContextBuildError => {
                "Renderer could not be built with WebGL2RenderingContext, because no canvas was supplied".to_owned()
            },
            RendererBuilderError::NoRenderCallbackBuildError => {
                "Renderer could not be built, because no `RenderCallback` was supplied".to_owned()
            },
            RendererBuilderError::NoContextCompileShaderError => {
                "Could not compile shader, because no canvas or its associated context were supplied".to_owned()
            },
            RendererBuilderError::NoShaderReturnedCompilerShaderError => {
                "Could not compile shader, because the call to the rendering context returned None".to_owned()
            },
            RendererBuilderError::KnownErrorCompileShaderError(reason) => {
                let mut s = "Could not compile shader. Reason: ".to_owned();
                s.append(reason.as_str());
                s
            },
            RendererBuilderError::UnknownErrorCompilerShaderError => {
                "Could not compile shader. An unknown error occurred.".to_owned()
            },
            RendererBuilderError::NoContextLinkProgramError => {
                "Could not link program because no WebGL2RenderingContext was provided".to_owned()
            },
            RendererBuilderError::VertexShaderNotFoundLinkProgramError => {
                "Could not link program because no vertex shader was found associated with the id provided".to_owned()
            },
            RendererBuilderError::FragmentShaderNotFoundLinkProgramError => {
                "Could not link program because no fragment shader was found associated with the id provided".to_owned()
            },
            RendererBuilderError::NoProgramLinkLinkProgramError => {
                "Could not link program because ProgramLink could not be found for the ProgramId provided".to_owned()
            },
            RendererBuilderError::NoProgramLinkProgramError => {
                "Could not link program because the value returned by `gl.link_program` was `None`".to_owned()
            },
            RendererBuilderError::NoVaoLinkProgramError => {
                "Could not link program because the value returned by `gl.create_vertex_array` was `None`".to_owned()
            },
            RendererBuilderError::CreateProgramLinkProgramError(e) => {
                let mut s = "Could not link program because an error occurred: ".to_owned();
                let inner = e.message();
                s.append(inner.as_str());
                s
            },
            RendererBuilderError::NoContextBuildUniformsError => {
                "Could not build uniforms because no WebGL2RenderingContext was provided".to_owned()
            },
            RendererBuilderError::ProgramNotFoundBuildUniformsError => {
                "Could not build uniforms because the associated program_id could not be found".to_owned()
            },
            RendererBuilderError::UniformLocationNotFoundBuildUniformsError { uniform_id } => {
                let mut s =
                    "Could not build uniforms because the uniform's location was not found in the program: ".to_owned();
                s.append(uniform_id.as_str());
                s
            },
            RendererBuilderError::NoContextInitializeUniformsError => {
                "Could not initialize uniforms because no WebGL2RenderingContext was provided".to_owned()
            },
            RendererBuilderError::CanvasReturnedNoContext => {
                "Could not get WebGl2RenderingContext from canvas, because None was returned".to_owned()
            },
            RendererBuilderError::AttributeLocationNotFoundCreateAttributeError => {
                "Could not create attribute because the attribute's location was not found in the program".to_owned()
            },
            RendererBuilderError::NoContextCreateAttributeError => {
                "Could not create attribute because no WebGL2RenderingContext was provided".to_owned()
            },
            RendererBuilderError::ProgramNotFoundCreateAttributeError => {
                "Could not create attribute because the attribute link's associated program was not found from the program_id".to_owned()
            },
            RendererBuilderError::VAONotFoundCreateAttributeError => {
                "Could not create attribute because the attribute link's associated Vertex Array Object was not found from the program_id".to_owned()
            },
            RendererBuilderError::BufferNotFoundCreateAttributeError => {
                "Could not create attribute because the attribute link's associated buffer was not found from the buffer_id".to_owned()
            },
            RendererBuilderError::NoContextCreateTextureError => {
                "Could not create texture because no WebGL2RenderingContext was provided".to_owned()
            },
            RendererBuilderError::NoTextureReturnedCreateTextureError => {
                "Could not create texture because the texture-creation callback returned no texture".to_owned()
            },
            RendererBuilderError::NoContextCreateFramebufferError => {
                "Could not create framebuffer because no WebGL2RenderingContext was provided".to_owned()
            },
            RendererBuilderError::NoFramebufferReturnedCreateFramebufferError => {
                "Could not create framebuffer because the framebuffer-creation callback returned no framebuffer".to_owned()
            },
            RendererBuilderError::TextureNotFoundCreateFramebufferError => {
                "Could not create framebuffer because the framebuffer link's associated texture was not found from the texture_id".to_owned()
            },
            RendererBuilderError::NoBufferReturnedCreateBufferError => {
                "Could not create buffer because the buffer-creation callback returned no buffer".to_owned()
            },
            RendererBuilderError::NoContextBuildTransformFeedbackError => {
                "Could not build transform feedback because no WebGL2RenderingContext was provided".to_owned()
            },
            RendererBuilderError::TransformFeedbackNotFoundTransformFeedbackError => {
                "Could not build transform feedback because the value returned from create_transform_feedback was None".to_owned()
            },
        }
    }
}

} // verus!
