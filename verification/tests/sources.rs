use shader_pipeline::SourceCatalog;
use shader_pipeline::read_file_contents;

#[test]
fn catalog_lookup_returns_the_first_entry_with_the_name() {
    let mut catalog = SourceCatalog::new();
    catalog.add(b"vertex_test.glsl".to_vec(), b"void main() {\n}\n".to_vec());
    catalog.add(b"fragment_test.glsl".to_vec(), b"out vec4 frag;\n".to_vec());
    catalog.add(b"vertex_test.glsl".to_vec(), b"shadowed\n".to_vec());
    assert_eq!(
        read_file_contents(&catalog, b"vertex_test.glsl"),
        Some(b"void main() {\n}\n".to_vec())
    );
    assert_eq!(
        read_file_contents(&catalog, b"fragment_test.glsl"),
        Some(b"out vec4 frag;\n".to_vec())
    );
    assert_eq!(read_file_contents(&catalog, b"missing.glsl"), None);
}
