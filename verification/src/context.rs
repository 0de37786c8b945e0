//! Explicit model of the rendering context's driver-side state.
//!
//! Every resource category keeps a table of records indexed by handle
//! (handle `h` names the record at position `h - 1`; handle 0 is the
//! sentinel meaning "no object").  Handles are never reused: releasing a
//! resource marks its record dead and frees its payload, so a freed handle
//! can never be confused with a live one.  The "currently bound" object of
//! each category is context-global state, mutated by every bind call.

use vstd::prelude::*;

use crate::buffer::BufferKind;
use crate::errors::ShaderStage;

verus! {

/// The views of a vector of byte vectors.
pub open spec fn views_of(vs: Seq<Vec<u8>>) -> Seq<Seq<u8>> {
    vs.map_values(|v: Vec<u8>| v@)
}

/// Largest image edge the model driver accepts for a texture upload.
pub const MAX_TEXTURE_SIZE: u32 = 16384;

/// Largest number of uniform locations the model driver hands out per
/// program; declarations beyond it are ignored at link time.
pub const MAX_PROGRAM_UNIFORMS: usize = 1024;

/// One buffer object: its binding target kind and its uploaded payload.
pub struct BufferRec {
    pub kind: BufferKind,
    pub data: Vec<u8>,
    pub live: bool,
}

/// One shader stage object: which stage it is and the source handed to it.
pub struct StageRec {
    pub stage: ShaderStage,
    pub source: Vec<u8>,
    pub live: bool,
}

/// One program object: whether it linked, its uniform names in location
/// order, and the current integer value of each uniform.
pub struct ProgramRec {
    pub linked: bool,
    pub uniforms: Vec<Vec<u8>>,
    pub values: Vec<i32>,
    pub live: bool,
}

/// One texture object: dimensions and the uploaded pixel payload.
pub struct TextureRec {
    pub width: u32,
    pub height: u32,
    pub data: Vec<u8>,
    pub live: bool,
}

/// One vertex array object; its attribute layout lives in the wrapper.
pub struct VertexArrayRec {
    pub live: bool,
}

/// The whole driver-side state: resource tables plus the context-global
/// binding slots.
pub struct GlContext {
    pub buffers: Vec<BufferRec>,
    pub stages: Vec<StageRec>,
    pub programs: Vec<ProgramRec>,
    pub textures: Vec<TextureRec>,
    pub vertex_arrays: Vec<VertexArrayRec>,
    /// Buffer bound to the vertex-attribute target (0 = none).
    pub bound_array_buffer: u32,
    /// Buffer bound to the index target (0 = none).
    pub bound_element_buffer: u32,
    /// Vertex array currently bound (0 = none).
    pub bound_vertex_array: u32,
    /// Program currently in use (0 = none).
    pub current_program: u32,
    /// Texture unit selected by the latest unit activation.
    pub active_texture_unit: u32,
    /// Texture bound to the two-dimensional target (0 = none).
    pub bound_texture: u32,
}

impl GlContext {
    pub open spec fn is_buffer(self, h: u32) -> bool {
        1 <= h && h as int <= self.buffers@.len()
    }

    pub open spec fn buffer_live(self, h: u32) -> bool {
        self.is_buffer(h) && self.buffers@[h as int - 1].live
    }

    pub open spec fn buffer_kind(self, h: u32) -> BufferKind {
        self.buffers@[h as int - 1].kind
    }

    pub open spec fn buffer_data(self, h: u32) -> Seq<u8> {
        self.buffers@[h as int - 1].data@
    }

    /// The handle bound to the target a buffer kind maps to.
    pub open spec fn binding_of(self, kind: BufferKind) -> u32 {
        match kind {
            BufferKind::Vertex => self.bound_array_buffer,
            BufferKind::Index => self.bound_element_buffer,
        }
    }

    pub open spec fn is_stage(self, h: u32) -> bool {
        1 <= h && h as int <= self.stages@.len()
    }

    pub open spec fn stage_live(self, h: u32) -> bool {
        self.is_stage(h) && self.stages@[h as int - 1].live
    }

    pub open spec fn stage_kind(self, h: u32) -> ShaderStage {
        self.stages@[h as int - 1].stage
    }

    pub open spec fn stage_source(self, h: u32) -> Seq<u8> {
        self.stages@[h as int - 1].source@
    }

    pub open spec fn is_program(self, h: u32) -> bool {
        1 <= h && h as int <= self.programs@.len()
    }

    pub open spec fn program_live(self, h: u32) -> bool {
        self.is_program(h) && self.programs@[h as int - 1].live
    }

    pub open spec fn program_linked(self, h: u32) -> bool {
        self.programs@[h as int - 1].linked
    }

    /// Uniform names of a program, in location order.
    pub open spec fn program_uniforms(self, h: u32) -> Seq<Seq<u8>> {
        views_of(self.programs@[h as int - 1].uniforms@)
    }

    /// Current integer value of each uniform, in location order.
    pub open spec fn program_values(self, h: u32) -> Seq<i32> {
        self.programs@[h as int - 1].values@
    }

    pub open spec fn is_texture(self, h: u32) -> bool {
        1 <= h && h as int <= self.textures@.len()
    }

    pub open spec fn texture_live(self, h: u32) -> bool {
        self.is_texture(h) && self.textures@[h as int - 1].live
    }

    pub open spec fn texture_width(self, h: u32) -> u32 {
        self.textures@[h as int - 1].width
    }

    pub open spec fn texture_height(self, h: u32) -> u32 {
        self.textures@[h as int - 1].height
    }

    pub open spec fn texture_data(self, h: u32) -> Seq<u8> {
        self.textures@[h as int - 1].data@
    }

    pub open spec fn is_vertex_array(self, h: u32) -> bool {
        1 <= h && h as int <= self.vertex_arrays@.len()
    }

    pub open spec fn vertex_array_live(self, h: u32) -> bool {
        self.is_vertex_array(h) && self.vertex_arrays@[h as int - 1].live
    }

    /// Every program record is within the model driver's capability
    /// limits and keeps one value slot per uniform name.
    pub open spec fn wf(self) -> bool {
        forall|j: int|
            0 <= j < self.programs@.len() ==> (#[trigger] self.programs@[j]).uniforms@.len()
                <= MAX_PROGRAM_UNIFORMS && self.programs@[j].values@.len()
                == self.programs@[j].uniforms@.len()
    }

    /// A fresh context: no resources, nothing bound.
    pub fn new() -> (c: GlContext)
        ensures
            c.buffers@ == Seq::<BufferRec>::empty(),
            c.stages@ == Seq::<StageRec>::empty(),
            c.programs@ == Seq::<ProgramRec>::empty(),
            c.textures@ == Seq::<TextureRec>::empty(),
            c.vertex_arrays@ == Seq::<VertexArrayRec>::empty(),
            c.bound_array_buffer == 0,
            c.bound_element_buffer == 0,
            c.bound_vertex_array == 0,
            c.current_program == 0,
            c.active_texture_unit == 0,
            c.bound_texture == 0,
            c.wf(),
    {
        GlContext {
            buffers: Vec::new(),
            stages: Vec::new(),
            programs: Vec::new(),
            textures: Vec::new(),
            vertex_arrays: Vec::new(),
            bound_array_buffer: 0,
            bound_element_buffer: 0,
            bound_vertex_array: 0,
            current_program: 0,
            active_texture_unit: 0,
            bound_texture: 0,
        }
    }
}

} // verus!
