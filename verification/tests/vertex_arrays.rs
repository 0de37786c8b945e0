use shader_pipeline::AttribLayout;
use shader_pipeline::BufferKind;
use shader_pipeline::GlContext;
use shader_pipeline::GpuBuffer;
use shader_pipeline::VertexArray;

#[test]
fn rebinding_a_slot_leaves_only_the_second_layout() {
    let mut ctx = GlContext::new();
    let mut va = VertexArray::new(&mut ctx);
    va.bind(&mut ctx);
    let vbo = GpuBuffer::new(&mut ctx, BufferKind::Vertex, vec![0; 96]);
    va.link_attrib(&mut ctx, &vbo, 0, 3, 1, 32, 0);
    va.link_attrib(&mut ctx, &vbo, 0, 2, 1, 16, 8);
    let layout = va.attrib_at(0).expect("slot 0 was recorded");
    assert_eq!(
        layout,
        AttribLayout {
            slot: 0,
            component_count: 2,
            component_type: 1,
            stride: 16,
            byte_offset: 8,
        }
    );
}

#[test]
fn distinct_slots_are_recorded_independently() {
    let mut ctx = GlContext::new();
    let mut va = VertexArray::new(&mut ctx);
    va.bind(&mut ctx);
    let vbo = GpuBuffer::new(&mut ctx, BufferKind::Vertex, vec![0; 128]);
    va.link_attrib(&mut ctx, &vbo, 0, 3, 1, 32, 0);
    va.link_attrib(&mut ctx, &vbo, 1, 3, 1, 32, 12);
    va.link_attrib(&mut ctx, &vbo, 2, 2, 1, 32, 24);
    assert_eq!(va.attrib_at(0).unwrap().byte_offset, 0);
    assert_eq!(va.attrib_at(1).unwrap().byte_offset, 12);
    assert_eq!(va.attrib_at(2).unwrap().byte_offset, 24);
    assert!(va.attrib_at(3).is_none());
}

#[test]
fn link_attrib_restores_the_previous_buffer_binding() {
    let mut ctx = GlContext::new();
    let mut va = VertexArray::new(&mut ctx);
    va.bind(&mut ctx);
    let other = GpuBuffer::new(&mut ctx, BufferKind::Vertex, vec![7; 4]);
    let vbo = GpuBuffer::new(&mut ctx, BufferKind::Vertex, vec![0; 64]);
    other.bind(&mut ctx);
    va.link_attrib(&mut ctx, &vbo, 0, 3, 1, 0, 0);
    // The source-buffer binding is scoped to the call; the vertex array
    // itself stays current.
    assert_eq!(ctx.bound_array_buffer, other.id);
    assert_eq!(ctx.bound_vertex_array, va.id);
}

#[test]
fn bind_unbind_and_delete_drive_the_current_vertex_array() {
    let mut ctx = GlContext::new();
    let va = VertexArray::new(&mut ctx);
    assert_ne!(va.id, 0);
    va.bind(&mut ctx);
    assert_eq!(ctx.bound_vertex_array, va.id);
    va.unbind(&mut ctx);
    assert_eq!(ctx.bound_vertex_array, 0);
    va.bind(&mut ctx);
    let id = va.id;
    va.delete(&mut ctx);
    assert_eq!(ctx.bound_vertex_array, 0);
    assert!(!ctx.vertex_arrays[(id - 1) as usize].live);
}
