use shader_pipeline::GlContext;
use shader_pipeline::PixelData;
use shader_pipeline::Shader;
use shader_pipeline::Texture;
use shader_pipeline::TextureError;

const VERTEX_SRC: &str = "out vec2 uv;\nvoid main() {\n    gl_Position = vec4(1.0);\n}\n";
const FRAGMENT_SRC: &str =
    "in vec2 uv;\nuniform sampler2D inputTexture;\nvoid main() {\n    frag = texture(inputTexture, uv);\n}\n";

fn two_by_two_rgba() -> Vec<u8> {
    vec![
        255, 0, 0, 255, // red
        0, 255, 0, 255, // green
        0, 0, 255, 255, // blue
        255, 255, 255, 0, // transparent white
    ]
}

#[test]
fn two_by_two_rgba_uploads_and_bind_unbind_toggle() {
    let mut ctx = GlContext::new();
    let pixels = PixelData { width: 2, height: 2, data: two_by_two_rgba() };
    let texture = Texture::new(&mut ctx, pixels, 0).expect("a 2x2 RGBA payload must upload");
    assert_ne!(texture.id, 0);
    assert_eq!(ctx.bound_texture, 0);
    let rec = &ctx.textures[(texture.id - 1) as usize];
    assert_eq!((rec.width, rec.height), (2, 2));
    assert_eq!(rec.data, two_by_two_rgba());
    texture.bind(&mut ctx);
    assert_eq!(ctx.bound_texture, texture.id);
    texture.unbind(&mut ctx);
    assert_eq!(ctx.bound_texture, 0);
}

#[test]
fn payload_of_wrong_size_is_an_upload_error() {
    let mut ctx = GlContext::new();
    // Three-channel data under a four-channel contract must be rejected,
    // not sampled as garbage.
    let rgb = PixelData { width: 2, height: 2, data: vec![0; 12] };
    assert!(matches!(Texture::new(&mut ctx, rgb, 0), Err(TextureError::Upload)));
    let empty = PixelData { width: 0, height: 1, data: Vec::new() };
    assert!(matches!(Texture::new(&mut ctx, empty, 0), Err(TextureError::Upload)));
}

#[test]
fn failed_upload_leaves_the_fresh_texture_bound() {
    let mut ctx = GlContext::new();
    let bad = PixelData { width: 1, height: 1, data: vec![1, 2, 3] };
    assert!(Texture::new(&mut ctx, bad, 3).is_err());
    assert_eq!(ctx.active_texture_unit, 3);
    assert_eq!(ctx.bound_texture, 1);
}

#[test]
fn png_source_decodes_to_the_original_pixels() {
    let mut ctx = GlContext::new();
    let raw = two_by_two_rgba();
    let img = image::RgbaImage::from_raw(2, 2, raw.clone()).unwrap();
    let mut encoded = Vec::new();
    img.write_to(&mut std::io::Cursor::new(&mut encoded), image::ImageFormat::Png).unwrap();
    assert_ne!(encoded, raw);
    let texture = Texture::from_encoded(&mut ctx, &encoded, 0).expect("a PNG source must decode");
    let rec = &ctx.textures[(texture.id - 1) as usize];
    assert_eq!((rec.width, rec.height), (2, 2));
    assert_eq!(rec.data, raw);
}

#[test]
fn undecodable_source_is_a_decode_error() {
    let mut ctx = GlContext::new();
    match Texture::from_encoded(&mut ctx, b"not an image at all", 0) {
        Err(TextureError::Decode(message)) => assert!(!message.is_empty()),
        other => panic!("expected a decode error, got {:?}", other),
    }
    assert!(ctx.textures.is_empty());
}

#[test]
fn tex_unit_writes_the_unit_into_the_named_uniform() {
    let mut ctx = GlContext::new();
    let shader = Shader::new(&mut ctx, VERTEX_SRC.as_bytes(), FRAGMENT_SRC.as_bytes()).unwrap();
    let pixels = PixelData { width: 1, height: 1, data: vec![0, 0, 0, 255] };
    let texture = Texture::new(&mut ctx, pixels, 0).unwrap();
    let loc = shader.uniform_location(&ctx, b"inputTexture");
    assert_eq!(loc, 0);
    texture.tex_unit(&mut ctx, &shader, b"inputTexture", 2);
    assert_eq!(ctx.current_program, shader.id);
    assert_eq!(ctx.programs[(shader.id - 1) as usize].values[loc as usize], 2);
}

#[test]
fn tex_unit_with_an_absent_uniform_changes_no_value() {
    let mut ctx = GlContext::new();
    let shader = Shader::new(&mut ctx, VERTEX_SRC.as_bytes(), FRAGMENT_SRC.as_bytes()).unwrap();
    let pixels = PixelData { width: 1, height: 1, data: vec![9, 9, 9, 9] };
    let texture = Texture::new(&mut ctx, pixels, 0).unwrap();
    let before = ctx.programs[(shader.id - 1) as usize].values.clone();
    texture.tex_unit(&mut ctx, &shader, b"nobody", 5);
    assert_eq!(ctx.programs[(shader.id - 1) as usize].values, before);
    assert_eq!(ctx.current_program, shader.id);
}

#[test]
fn delete_frees_the_texture_and_clears_the_binding() {
    let mut ctx = GlContext::new();
    let pixels = PixelData { width: 1, height: 1, data: vec![1, 2, 3, 4] };
    let texture = Texture::new(&mut ctx, pixels, 0).unwrap();
    texture.bind(&mut ctx);
    let id = texture.id;
    texture.delete(&mut ctx);
    assert_eq!(ctx.bound_texture, 0);
    assert!(!ctx.textures[(id - 1) as usize].live);
}
