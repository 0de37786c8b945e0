use shader_pipeline::GlContext;
use shader_pipeline::ProgramState;
use shader_pipeline::Shader;
use shader_pipeline::ShaderError;
use shader_pipeline::ShaderStage;
use shader_pipeline::compile_shader;
use shader_pipeline::link_program;

const VERTEX_SRC: &str = "#version 330 core\n\
layout(location = 0) in vec3 pos;\n\
uniform float scale;\n\
out vec4 color;\n\
void main() {\n\
    gl_Position = vec4(pos * scale, 1.0);\n\
    color = vec4(1.0, 0.5, 0.25, 1.0);\n\
}\n";

const FRAGMENT_SRC: &str = "#version 330 core\n\
in vec4 color;\n\
uniform sampler2D inputTexture;\n\
out vec4 frag;\n\
void main() {\n\
    frag = color;\n\
}\n";

#[test]
fn pass_through_pair_links_into_a_program() {
    let mut ctx = GlContext::new();
    let shader = Shader::new(&mut ctx, VERTEX_SRC.as_bytes(), FRAGMENT_SRC.as_bytes())
        .expect("a well-formed pass-through pair must link");
    assert_ne!(shader.id, 0);
    assert_eq!(shader.state, ProgramState::Linked);
    assert!(ctx.programs[(shader.id - 1) as usize].linked);
}

#[test]
fn missing_semicolon_is_a_vertex_compile_error() {
    let mut ctx = GlContext::new();
    let malformed = "#version 330 core\n\
out vec4 color;\n\
void main() {\n\
    color = vec4(1.0)\n\
}\n";
    match Shader::new(&mut ctx, malformed.as_bytes(), FRAGMENT_SRC.as_bytes()) {
        Err(ShaderError::Compile(e)) => {
            assert_eq!(e.stage, ShaderStage::Vertex);
            assert!(!e.message.is_empty());
            assert_eq!(e.message, "ERROR: 0:4: statement not terminated");
        },
        other => panic!("expected a vertex compile error, got {:?}", other),
    }
}

#[test]
fn malformed_vertex_stage_leaves_fragment_stage_untouched() {
    let mut ctx = GlContext::new();
    let fragment = compile_shader(&mut ctx, ShaderStage::Fragment, FRAGMENT_SRC.as_bytes())
        .expect("fragment source is well-formed");
    let before = ctx.stages[(fragment.id - 1) as usize].source.clone();
    let r = compile_shader(&mut ctx, ShaderStage::Vertex, b"void main() {\n    broken\n}\n");
    let e = r.err().expect("malformed vertex source must be rejected");
    assert_eq!(e.stage, ShaderStage::Vertex);
    assert!(ctx.stages[(fragment.id - 1) as usize].live);
    assert_eq!(ctx.stages[(fragment.id - 1) as usize].source, before);
}

#[test]
fn unbalanced_braces_are_rejected_with_their_own_diagnostic() {
    let mut ctx = GlContext::new();
    let source = b"void main() {\n    gl_Position = vec4(1.0);\n";
    let e = compile_shader(&mut ctx, ShaderStage::Vertex, source)
        .err()
        .expect("unbalanced braces must be rejected");
    assert_eq!(e.message, "ERROR: unbalanced braces in shader source");
}

#[test]
fn blank_source_is_rejected_as_empty() {
    let mut ctx = GlContext::new();
    let e = compile_shader(&mut ctx, ShaderStage::Fragment, b"  \n\t\n")
        .err()
        .expect("a blank source must be rejected");
    assert_eq!(e.stage, ShaderStage::Fragment);
    assert_eq!(e.message, "ERROR: shader source is empty");
}

#[test]
fn line_numbers_past_nine_render_in_full() {
    let mut ctx = GlContext::new();
    // Eleven acceptable lines, then the offender on line twelve.
    let mut source = String::new();
    for _ in 0..11 {
        source.push_str("    color = vec4(1.0);\n");
    }
    source.push_str("    color = vec4(2.0)\n");
    let e = compile_shader(&mut ctx, ShaderStage::Vertex, source.as_bytes())
        .err()
        .expect("the unterminated line must be rejected");
    assert_eq!(e.message, "ERROR: 0:12: statement not terminated");
}

#[test]
fn unmatched_fragment_input_is_a_link_error() {
    let mut ctx = GlContext::new();
    let fragment = "#version 330 core\n\
in vec4 tint;\n\
out vec4 frag;\n\
void main() {\n\
    frag = tint;\n\
}\n";
    match Shader::new(&mut ctx, VERTEX_SRC.as_bytes(), fragment.as_bytes()) {
        Err(ShaderError::Link(e)) => {
            assert_eq!(e.message, "ERROR: 0:2: fragment input not written by vertex stage");
        },
        other => panic!("expected a link error, got {:?}", other),
    }
}

#[test]
fn link_releases_both_stage_objects_whatever_the_outcome() {
    let mut ctx = GlContext::new();
    let v = compile_shader(&mut ctx, ShaderStage::Vertex, VERTEX_SRC.as_bytes()).unwrap();
    let f = compile_shader(&mut ctx, ShaderStage::Fragment, FRAGMENT_SRC.as_bytes()).unwrap();
    let (vid, fid) = (v.id, f.id);
    link_program(&mut ctx, v, f).unwrap();
    assert!(!ctx.stages[(vid - 1) as usize].live);
    assert!(!ctx.stages[(fid - 1) as usize].live);

    let mismatched = "in vec4 nobody;\nvoid main() {\n    x = nobody;\n}\n";
    let v2 = compile_shader(&mut ctx, ShaderStage::Vertex, VERTEX_SRC.as_bytes()).unwrap();
    let f2 = compile_shader(&mut ctx, ShaderStage::Fragment, mismatched.as_bytes()).unwrap();
    let (vid2, fid2) = (v2.id, f2.id);
    assert!(link_program(&mut ctx, v2, f2).is_err());
    assert!(!ctx.stages[(vid2 - 1) as usize].live);
    assert!(!ctx.stages[(fid2 - 1) as usize].live);
}

#[test]
fn activate_makes_the_program_current() {
    let mut ctx = GlContext::new();
    let mut shader = Shader::new(&mut ctx, VERTEX_SRC.as_bytes(), FRAGMENT_SRC.as_bytes()).unwrap();
    assert_eq!(ctx.current_program, 0);
    shader.activate(&mut ctx);
    assert_eq!(ctx.current_program, shader.id);
    assert_eq!(shader.state, ProgramState::Active);
}

#[test]
fn uniform_locations_follow_declaration_order_with_sentinel() {
    let mut ctx = GlContext::new();
    let shader = Shader::new(&mut ctx, VERTEX_SRC.as_bytes(), FRAGMENT_SRC.as_bytes()).unwrap();
    assert_eq!(shader.uniform_location(&ctx, b"scale"), 0);
    assert_eq!(shader.uniform_location(&ctx, b"inputTexture"), 1);
    assert_eq!(shader.uniform_location(&ctx, b"absent"), -1);
}

#[test]
fn delete_frees_the_program_record() {
    let mut ctx = GlContext::new();
    let shader = Shader::new(&mut ctx, VERTEX_SRC.as_bytes(), FRAGMENT_SRC.as_bytes()).unwrap();
    let id = shader.id;
    shader.delete(&mut ctx);
    assert!(!ctx.programs[(id - 1) as usize].live);
    assert!(ctx.programs[(id - 1) as usize].uniforms.is_empty());
}

#[test]
fn comments_directives_and_blank_lines_are_accepted() {
    let mut ctx = GlContext::new();
    let source = "#version 330 core\n\
\n\
// pass-through position\n\
   // indented comment\n\
out vec4 color;\n\
void main() {\n\
    color = vec4(1.0);\n\
}\n";
    assert!(compile_shader(&mut ctx, ShaderStage::Vertex, source.as_bytes()).is_ok());
}

#[test]
fn a_uniform_declared_in_both_stages_gets_one_location() {
    let mut ctx = GlContext::new();
    let vs = "uniform float scale;\nout vec4 color;\nvoid main() {\n    color = vec4(scale);\n}\n";
    let fs = "uniform float scale;\nuniform vec4 tint;\nvoid main() {\n    frag = vec4(scale);\n}\n";
    let shader = Shader::new(&mut ctx, vs.as_bytes(), fs.as_bytes()).unwrap();
    assert_eq!(shader.uniform_location(&ctx, b"scale"), 0);
    assert_eq!(shader.uniform_location(&ctx, b"tint"), 1);
    assert_eq!(ctx.programs[(shader.id - 1) as usize].uniforms.len(), 2);
}
