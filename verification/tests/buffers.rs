use shader_pipeline::BufferKind;
use shader_pipeline::GlContext;
use shader_pipeline::GpuBuffer;

fn le_bytes_of_f32s(values: &[f32]) -> Vec<u8> {
    let mut bytes = Vec::new();
    for v in values {
        bytes.extend_from_slice(&v.to_le_bytes());
    }
    bytes
}

#[test]
fn float_upload_reads_back_bit_identical() {
    let mut ctx = GlContext::new();
    let floats = [0.5f32, -1.25, 3.5e-3, 0.0, -0.0, f32::MIN_POSITIVE];
    let bytes = le_bytes_of_f32s(&floats);
    let buffer = GpuBuffer::new(&mut ctx, BufferKind::Vertex, bytes.clone());
    let back = buffer.read_back(&ctx, 0, bytes.len());
    assert_eq!(back, bytes);
    for (i, v) in floats.iter().enumerate() {
        let raw: [u8; 4] = back[4 * i..4 * i + 4].try_into().unwrap();
        assert_eq!(f32::from_le_bytes(raw).to_bits(), v.to_bits());
    }
}

#[test]
fn read_back_of_inner_region_is_exact() {
    let mut ctx = GlContext::new();
    let bytes: Vec<u8> = (0u8..32).collect();
    let buffer = GpuBuffer::new(&mut ctx, BufferKind::Vertex, bytes.clone());
    assert_eq!(buffer.read_back(&ctx, 8, 12), bytes[8..20].to_vec());
    assert_eq!(buffer.read_back(&ctx, 0, 0), Vec::<u8>::new());
}

#[test]
fn index_buffer_of_six_indices_is_recorded() {
    let mut ctx = GlContext::new();
    let indices: [u32; 6] = [0, 2, 1, 0, 3, 2];
    let mut bytes = Vec::new();
    for i in &indices {
        bytes.extend_from_slice(&i.to_le_bytes());
    }
    let ebo = GpuBuffer::new(&mut ctx, BufferKind::Index, bytes.clone());
    assert_ne!(ebo.id, 0);
    assert_eq!(ebo.kind, BufferKind::Index);
    // Six 32-bit indices are on the GPU side, ready for an indexed draw.
    assert_eq!(ebo.read_back(&ctx, 0, 24), bytes);
    assert_eq!(ctx.bound_element_buffer, ebo.id);
    assert_eq!(ctx.bound_array_buffer, 0);
}

#[test]
fn create_leaves_buffer_bound_and_bind_unbind_toggle() {
    let mut ctx = GlContext::new();
    let vbo = GpuBuffer::new(&mut ctx, BufferKind::Vertex, vec![1, 2, 3]);
    assert_eq!(ctx.bound_array_buffer, vbo.id);
    vbo.unbind(&mut ctx);
    assert_eq!(ctx.bound_array_buffer, 0);
    vbo.bind(&mut ctx);
    assert_eq!(ctx.bound_array_buffer, vbo.id);
    vbo.unbind(&mut ctx);
    assert_eq!(ctx.bound_array_buffer, 0);
}

#[test]
fn delete_frees_the_record_and_clears_the_binding() {
    let mut ctx = GlContext::new();
    let vbo = GpuBuffer::new(&mut ctx, BufferKind::Vertex, vec![9; 8]);
    let id = vbo.id;
    vbo.delete(&mut ctx);
    assert_eq!(ctx.bound_array_buffer, 0);
    assert!(!ctx.buffers[(id - 1) as usize].live);
    assert!(ctx.buffers[(id - 1) as usize].data.is_empty());
}

#[test]
fn handles_are_never_reused() {
    let mut ctx = GlContext::new();
    let a = GpuBuffer::new(&mut ctx, BufferKind::Vertex, vec![1]);
    let a_id = a.id;
    a.delete(&mut ctx);
    let b = GpuBuffer::new(&mut ctx, BufferKind::Vertex, vec![2]);
    assert_ne!(a_id, b.id);
}
