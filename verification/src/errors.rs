//! Error taxonomy of the wrapper layer.
//!
//! Construction-time failures (compile, link, decode, upload) are surfaced
//! to the immediate caller as typed values, never merely logged: the render
//! loop decides whether to abort startup.

use vstd::prelude::*;

verus! {

/// One compiled unit of shader code prior to linking into a program.
#[derive(Clone, Copy, Debug, PartialEq, Eq, Structural)]
pub enum ShaderStage {
    Vertex,
    Fragment,
}

/// Shader source rejected by the stage compiler; the message carries the
/// driver's diagnostic text verbatim.
#[derive(Debug)]
pub struct CompileError {
    pub stage: ShaderStage,
    pub message: String,
}

/// Individually compiled stages rejected at link time (interface mismatch).
#[derive(Debug)]
pub struct LinkError {
    pub message: String,
}

/// Failure of the two-stage compile-then-link construction flow.
#[derive(Debug)]
pub enum ShaderError {
    Compile(CompileError),
    Link(LinkError),
}

/// Failure while building a texture: the pixel source could not be decoded,
/// or the driver rejected the image dimensions or format.
#[derive(Debug)]
pub enum TextureError {
    Decode(String),
    Upload,
}

} // verus!
