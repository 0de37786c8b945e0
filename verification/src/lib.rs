//! A verified model of a small OpenGL-style resource-wrapper layer.
//!
//! The library models the driver side of a rendering context as explicit
//! state (`GlContext`) and builds the four resource wrappers on top of it:
//! buffers (`GpuBuffer`), vertex arrays (`VertexArray`), shader programs
//! (`Shader`) and textures (`Texture`).  Every operation carries a contract
//! that pins down exactly how it changes the context and what it returns.


mod buffer;
mod context;
mod errors;
mod glsl;
mod laws;
mod shader;
mod sources;
mod texture;
mod vertex_array;

pub use buffer::BufferKind;
pub use buffer::GpuBuffer;
pub use context::BufferRec;
pub use context::GlContext;
pub use context::ProgramRec;
pub use context::StageRec;
pub use context::TextureRec;
pub use context::VertexArrayRec;
pub use context::views_of;
pub use context::MAX_PROGRAM_UNIFORMS;
pub use context::MAX_TEXTURE_SIZE;
pub use glsl::check_link_sources;
pub use glsl::check_stage_source;
pub use glsl::collect_uniform_names;
pub use glsl::compile_accepts;
pub use glsl::compile_diag;
pub use glsl::link_accepts;
pub use glsl::link_diag;
pub use glsl::program_uniform_names;
pub use glsl::split_lines;
pub use glsl::split_source_lines;
pub use glsl::uniform_location_of;
pub use laws::lemma_buffer_round_trip;
pub use laws::lemma_compile_diag_nonempty;
pub use laws::lemma_link_attrib_last_write_wins;
pub use laws::lemma_malformed_vertex_rejected;
pub use laws::lemma_valid_sources_yield_linked_program;
pub use errors::CompileError;
pub use errors::LinkError;
pub use errors::ShaderError;
pub use errors::ShaderStage;
pub use errors::TextureError;
pub use sources::SourceCatalog;
pub use sources::SourceEntry;
pub use sources::read_file_contents;
pub use sources::scan_entry;
pub use shader::ProgramState;
pub use shader::Shader;
pub use shader::StageHandle;
pub use shader::compile_post;
pub use shader::compile_shader;
pub use shader::link_post;
pub use shader::link_program;
pub use shader::shader_new_post;
pub use texture::PixelData;
pub use texture::Texture;
pub use texture::decoded_rgba;
pub use texture::texture_new_post;
pub use texture::upload_ok;
pub use vertex_array::AttribLayout;
pub use vertex_array::VertexArray;
pub use vertex_array::attrib_map_of;
pub use vertex_array::unique_slots;
