//! The laws the wrapper layer guarantees, stated over the contracts of
//! the operations they relate and proved once and for all.

use vstd::prelude::*;

use crate::buffer::GpuBuffer;
use crate::context::GlContext;
use crate::errors::CompileError;
use crate::errors::LinkError;
use crate::errors::ShaderStage;
use crate::glsl::compile_accepts;
use crate::glsl::compile_diag;
use crate::glsl::has_code;
use crate::glsl::lines_ok;
use crate::glsl::link_accepts;
use crate::shader::ProgramState;
use crate::shader::Shader;
use crate::shader::StageHandle;
use crate::shader::compile_post;
use crate::shader::link_post;
use crate::vertex_array::AttribLayout;

verus! {

/// A rejected source always comes with a non-empty diagnostic.
pub proof fn lemma_compile_diag_nonempty(s: Seq<u8>)
    requires
        !compile_accepts(s),
    ensures
        compile_diag(s).len() > 0,
{
    reveal_strlit("ERROR: shader source is empty");
    reveal_strlit("ERROR: 0:");
    reveal_strlit("ERROR: unbalanced braces in shader source");
    if has_code(s) && !lines_ok(s) {
        assert(compile_diag(s).len() >= "ERROR: 0:"@.len());
    }
}

/// Law: for well-formed stage sources whose interfaces match, compiling
/// each stage and then linking yields a linked program with a
/// non-sentinel handle.  (A second release of that program is already
/// unrepresentable: `Shader::delete` consumes the value.)
pub proof fn lemma_valid_sources_yield_linked_program(
    s0: GlContext,
    s1: GlContext,
    s2: GlContext,
    s3: GlContext,
    vs: Seq<u8>,
    fs: Seq<u8>,
    rv: Result<StageHandle, CompileError>,
    rf: Result<StageHandle, CompileError>,
    rl: Result<Shader, LinkError>,
)
    requires
        compile_post(s0, s1, ShaderStage::Vertex, vs, rv),
        compile_post(s1, s2, ShaderStage::Fragment, fs, rf),
        rv matches Ok(vh) && rf matches Ok(fh) && link_post(s2, s3, vh.id, fh.id, rl),
        compile_accepts(vs),
        compile_accepts(fs),
        link_accepts(vs, fs),
    ensures
        rv is Ok,
        rf is Ok,
        rl is Ok,
        (rl matches Ok(sh) ==> sh.id != 0 && sh.state == ProgramState::Linked && s3.program_live(
            sh.id,
        ) && s3.program_linked(sh.id)),
{
    let vh = rv.unwrap();
    let fh = rf.unwrap();
    assert(s1.stage_source(vh.id) == vs);
    assert(s2.stages@[vh.id - 1] == s1.stages@[vh.id - 1]);
    assert(s2.stage_source(vh.id) == vs);
    assert(s2.stage_source(fh.id) == fs);
}

/// Law: a malformed vertex source is rejected as a vertex-stage compile
/// error carrying the driver's whole, non-empty diagnostic, and every
/// stage object that existed before the call stands exactly as it was:
/// in particular, a fragment stage is unaffected.
pub proof fn lemma_malformed_vertex_rejected(
    pre: GlContext,
    post: GlContext,
    vs: Seq<u8>,
    r: Result<StageHandle, CompileError>,
)
    requires
        compile_post(pre, post, ShaderStage::Vertex, vs, r),
        !compile_accepts(vs),
    ensures
        r is Err,
        (r matches Err(e) ==> e.stage == ShaderStage::Vertex && e.message@ == compile_diag(vs)
            && e.message@.len() > 0),
        forall|h: u32|
            pre.stage_live(h) ==> post.stage_live(h) && post.stage_kind(h) == pre.stage_kind(h)
                && post.stage_source(h) == pre.stage_source(h),
{
    lemma_compile_diag_nonempty(vs);
    assert forall|h: u32| pre.stage_live(h) implies post.stage_live(h) && post.stage_kind(h)
        == pre.stage_kind(h) && post.stage_source(h) == pre.stage_source(h) by {
        assert(post.stages@[h as int - 1] == pre.stages@[h as int - 1]);
    }
}

/// Law: a buffer payload is stored verbatim, so reading back the full
/// region of what was uploaded returns it bit for bit: no
/// transformation, no reordering.
pub proof fn lemma_buffer_round_trip(ctx: GlContext, b: GpuBuffer, data: Seq<u8>)
    requires
        ctx.buffer_data(b.id) == data,
    ensures
        ctx.buffer_data(b.id).subrange(0, data.len() as int) == data,
{
    assert(ctx.buffer_data(b.id).subrange(0, data.len() as int) =~= data);
}

/// Law: recording the same attribute slot twice leaves only the second
/// layout in effect — last write wins, exactly as a single write of the
/// second layout.
pub proof fn lemma_link_attrib_last_write_wins(
    m: Map<u32, AttribLayout>,
    first: AttribLayout,
    second: AttribLayout,
    slot: u32,
)
    ensures
        m.insert(slot, first).insert(slot, second) == m.insert(slot, second),
{
    assert(m.insert(slot, first).insert(slot, second) =~= m.insert(slot, second));
}

} // verus!
