//! Shader programs: the two-stage compile-then-link construction flow.
//!
//! Each stage is compiled on its own and yields a transient stage handle;
//! linking consumes both handles, and the driver-side stage objects are
//! released before `link_program` returns whether or not linking
//! succeeded.  Failures carry the driver's diagnostic text verbatim.
//!
//! The flow walks a program's life cycle: nothing compiled, one stage
//! compiled (a `StageHandle`), both compiled (two), linked (a `Shader` in
//! state `Linked`), active (`activate`).  A rejected compile or link is
//! terminal for the construction and surfaces as the typed error; the
//! caller starts over or aborts.

use vstd::prelude::*;

use crate::context::GlContext;
use crate::context::ProgramRec;
use crate::context::StageRec;
use crate::context::views_of;
use crate::errors::CompileError;
use crate::errors::LinkError;
use crate::errors::ShaderError;
use crate::errors::ShaderStage;
use crate::glsl::check_link_sources;
use crate::glsl::check_stage_source;
use crate::glsl::collect_uniform_names;
use crate::glsl::compile_accepts;
use crate::glsl::compile_diag;
use crate::glsl::copy_range;
use crate::glsl::find_uniform;
use crate::glsl::link_accepts;
use crate::glsl::link_diag;
use crate::glsl::program_uniform_names;
use crate::glsl::uniform_location_of;

verus! {

/// A successfully compiled stage, alive until linking releases it.  The
/// type has no copy or clone operation: each handle is consumed by
/// exactly one link.
#[derive(Debug)]
pub struct StageHandle {
    pub id: u32,
    pub stage: ShaderStage,
}

/// Where a program stands in its life cycle.
#[derive(Clone, Copy, Debug, PartialEq, Eq, Structural)]
pub enum ProgramState {
    /// Linked and ready to be made current.
    Linked,
    /// Made current by `activate` at least once.
    Active,
}

/// Exclusive owner of one linked program object.
#[derive(Debug)]
pub struct Shader {
    pub id: u32,
    pub state: ProgramState,
}

/// What compiling one stage does: the verdict and diagnostic follow the
/// front end, a new stage record is created either way (a rejected stage
/// object is not auto-released here; release happens centrally in
/// `link_program`), prior records and the rest of the context stand.
pub open spec fn compile_post(
    pre: GlContext,
    post: GlContext,
    stage: ShaderStage,
    source: Seq<u8>,
    r: Result<StageHandle, CompileError>,
) -> bool {
    let h = (pre.stages@.len() + 1) as u32;
    &&& (r is Ok <==> compile_accepts(source))
    &&& (r matches Ok(sh) ==> sh.id == h && sh.stage == stage)
    &&& (r matches Err(e) ==> e.stage == stage && e.message@ == compile_diag(source))
    &&& post.stages@.len() == pre.stages@.len() + 1
    &&& post.stage_live(h)
    &&& post.stage_kind(h) == stage
    &&& post.stage_source(h) == source
    &&& forall|j: int| 0 <= j < pre.stages@.len() ==> post.stages@[j] == pre.stages@[j]
    &&& post == (GlContext { stages: post.stages, ..pre })
}

/// Submits one stage source to the model driver's compiler.  On failure
/// the diagnostic is retrieved whole, never truncated.
pub fn compile_shader(ctx: &mut GlContext, stage: ShaderStage, source: &[u8]) -> (r: Result<
    StageHandle,
    CompileError,
>)
    requires
        old(ctx).stages@.len() < u32::MAX as usize,
    ensures
        compile_post(*old(ctx), *final(ctx), stage, source@, r),
{
    let n = ctx.stages.len();
    let id = (n + 1) as u32;
    let src_copy = copy_range(source, 0, source.len());
    proof {
        assert(src_copy@ =~= source@);
    }
    ctx.stages.push(StageRec { stage, source: src_copy, live: true });
    match check_stage_source(source) {
        None => Ok(StageHandle { id, stage }),
        Some(message) => Err(CompileError { stage, message }),
    }
}

/// What linking does: the verdict and diagnostic follow the interface
/// match of the two recorded sources, one program record is created, and
/// both stage records are released whatever the outcome.
pub open spec fn link_post(
    pre: GlContext,
    post: GlContext,
    vid: u32,
    fid: u32,
    r: Result<Shader, LinkError>,
) -> bool {
    let vs = pre.stage_source(vid);
    let fs = pre.stage_source(fid);
    let p = (pre.programs@.len() + 1) as u32;
    &&& (r is Ok <==> link_accepts(vs, fs))
    &&& (r matches Ok(sh) ==> {
        &&& sh.id == p
        &&& sh.id != 0
        &&& sh.state == ProgramState::Linked
        &&& post.program_linked(p)
        &&& post.program_uniforms(p) == program_uniform_names(vs, fs)
        &&& post.program_values(p) == Seq::new(program_uniform_names(vs, fs).len(), |i: int| 0i32)
    })
    &&& (r matches Err(e) ==> {
        &&& e.message@ == link_diag(vs, fs)
        &&& !post.program_linked(p)
        &&& post.program_uniforms(p) == Seq::<Seq<u8>>::empty()
    })
    &&& post.programs@.len() == pre.programs@.len() + 1
    &&& post.program_live(p)
    &&& forall|j: int| 0 <= j < pre.programs@.len() ==> post.programs@[j] == pre.programs@[j]
    &&& post.stages@.len() == pre.stages@.len()
    &&& !post.stage_live(vid)
    &&& !post.stage_live(fid)
    &&& post.stage_kind(vid) == pre.stage_kind(vid)
    &&& post.stage_kind(fid) == pre.stage_kind(fid)
    &&& forall|j: int|
        0 <= j < pre.stages@.len() && j != vid - 1 && j != fid - 1 ==> post.stages@[j]
            == pre.stages@[j]
    &&& post == (GlContext { stages: post.stages, programs: post.programs, ..pre })
}

/// Creates a program object, attaches the two compiled stages, links
/// them, and releases both stage objects before returning, on success and
/// on failure alike: stage objects are never leaked past a link.
pub fn link_program(ctx: &mut GlContext, vertex: StageHandle, fragment: StageHandle) -> (r: Result<
    Shader,
    LinkError,
>)
    requires
        old(ctx).stage_live(vertex.id),
        old(ctx).stage_kind(vertex.id) == ShaderStage::Vertex,
        old(ctx).stage_live(fragment.id),
        old(ctx).stage_kind(fragment.id) == ShaderStage::Fragment,
        vertex.id != fragment.id,
        old(ctx).programs@.len() < u32::MAX as usize,
    ensures
        link_post(*old(ctx), *final(ctx), vertex.id, fragment.id, r),
        old(ctx).wf() ==> final(ctx).wf(),
{
    let vi = (vertex.id - 1) as usize;
    let fi = (fragment.id - 1) as usize;
    let vs = copy_range(ctx.stages[vi].source.as_slice(), 0, ctx.stages[vi].source.len());
    let fs = copy_range(ctx.stages[fi].source.as_slice(), 0, ctx.stages[fi].source.len());
    proof {
        assert(vs@ =~= old(ctx).stage_source(vertex.id));
        assert(fs@ =~= old(ctx).stage_source(fragment.id));
    }
    let pid = (ctx.programs.len() + 1) as u32;
    let verdict = check_link_sources(vs.as_slice(), fs.as_slice());
    match verdict {
        None => {
            let uniforms = collect_uniform_names(vs.as_slice(), fs.as_slice());
            let count = uniforms.len();
            let mut values: Vec<i32> = Vec::new();
            proof {
                assert(values@ =~= Seq::new(0, |i: int| 0i32));
            }
            let mut z: usize = 0;
            while z < count
                invariant
                    z <= count,
                    values@ == Seq::new(z as nat, |i: int| 0i32),
                decreases count - z,
            {
                values.push(0);
                z = z + 1;
                proof {
                    assert(values@ =~= Seq::new(z as nat, |i: int| 0i32));
                }
            }
            ctx.programs.push(ProgramRec { linked: true, uniforms, values, live: true });
            release_stage(ctx, vertex);
            release_stage(ctx, fragment);
            proof {
                assert(ctx.program_uniforms(pid) == program_uniform_names(vs@, fs@));
            }
            Ok(Shader { id: pid, state: ProgramState::Linked })
        },
        Some(message) => {
            ctx.programs.push(
                ProgramRec { linked: false, uniforms: Vec::new(), values: Vec::new(), live: true },
            );
            release_stage(ctx, vertex);
            release_stage(ctx, fragment);
            proof {
                assert(ctx.program_uniforms(pid) =~= Seq::<Seq<u8>>::empty());
            }
            Err(LinkError { message })
        },
    }
}

/// Releases one stage object: the record goes dead and its source is
/// freed.
fn release_stage(ctx: &mut GlContext, handle: StageHandle)
    requires
        old(ctx).is_stage(handle.id),
    ensures
        final(ctx).stages@.len() == old(ctx).stages@.len(),
        !final(ctx).stage_live(handle.id),
        final(ctx).stage_kind(handle.id) == old(ctx).stage_kind(handle.id),
        final(ctx).stage_source(handle.id) == Seq::<u8>::empty(),
        forall|j: int|
            0 <= j < old(ctx).stages@.len() && j != handle.id - 1 ==> final(ctx).stages@[j]
                == old(ctx).stages@[j],
        *final(ctx) == (GlContext { stages: final(ctx).stages, ..*old(ctx) }),
{
    let i = (handle.id - 1) as usize;
    let stage = ctx.stages[i].stage;
    ctx.stages[i] = StageRec { stage, source: Vec::new(), live: false };
}

/// What the whole construction flow does: compile the vertex stage, then
/// the fragment stage, then link; the first failure wins and is typed.
pub open spec fn shader_new_post(
    pre: GlContext,
    post: GlContext,
    vs: Seq<u8>,
    fs: Seq<u8>,
    r: Result<Shader, ShaderError>,
) -> bool {
    &&& (r is Ok <==> compile_accepts(vs) && compile_accepts(fs) && link_accepts(vs, fs))
    &&& (!compile_accepts(vs) ==> (r matches Err(ShaderError::Compile(e)) && e.stage
        == ShaderStage::Vertex && e.message@ == compile_diag(vs)))
    &&& (compile_accepts(vs) && !compile_accepts(fs) ==> (r matches Err(ShaderError::Compile(e))
        && e.stage == ShaderStage::Fragment && e.message@ == compile_diag(fs)))
    &&& (compile_accepts(vs) && compile_accepts(fs) && !link_accepts(vs, fs) ==> (r matches Err(
        ShaderError::Link(e),
    ) && e.message@ == link_diag(vs, fs)))
    &&& (r matches Ok(sh) ==> {
        &&& sh.id != 0
        &&& sh.state == ProgramState::Linked
        &&& sh.id as int == pre.programs@.len() + 1
        &&& post.program_live(sh.id)
        &&& post.program_linked(sh.id)
        &&& post.program_uniforms(sh.id) == program_uniform_names(vs, fs)
        &&& post.program_values(sh.id) == Seq::new(program_uniform_names(vs, fs).len(), |i: int| 0i32)
    })
    &&& (!compile_accepts(vs) ==> post.stages@.len() == pre.stages@.len() + 1
        && post.programs@.len() == pre.programs@.len())
    &&& (compile_accepts(vs) && !compile_accepts(fs) ==> post.stages@.len() == pre.stages@.len()
        + 2 && post.programs@.len() == pre.programs@.len())
    &&& (compile_accepts(vs) && compile_accepts(fs) ==> post.stages@.len() == pre.stages@.len()
        + 2 && post.programs@.len() == pre.programs@.len() + 1 && !post.stage_live(
        (pre.stages@.len() + 1) as u32,
    ) && !post.stage_live((pre.stages@.len() + 2) as u32))
    &&& forall|j: int| 0 <= j < pre.stages@.len() ==> post.stages@[j] == pre.stages@[j]
    &&& forall|j: int| 0 <= j < pre.programs@.len() ==> post.programs@[j] == pre.programs@[j]
    &&& post == (GlContext { stages: post.stages, programs: post.programs, ..pre })
}

impl Shader {
    /// Builds a program from the two stage sources: compile both stages,
    /// link, release the stage objects.  Every failure is surfaced to the
    /// caller as a typed error carrying the diagnostic, never merely
    /// logged.
    pub fn new(ctx: &mut GlContext, vertex_source: &[u8], fragment_source: &[u8]) -> (r: Result<
        Shader,
        ShaderError,
    >)
        requires
            old(ctx).stages@.len() + 1 < u32::MAX as usize,
            old(ctx).programs@.len() < u32::MAX as usize,
        ensures
            shader_new_post(*old(ctx), *final(ctx), vertex_source@, fragment_source@, r),
            old(ctx).wf() ==> final(ctx).wf(),
    {
        let vertex = match compile_shader(ctx, ShaderStage::Vertex, vertex_source) {
            Ok(h) => h,
            Err(e) => {
                return Err(ShaderError::Compile(e));
            },
        };
        let fragment = match compile_shader(ctx, ShaderStage::Fragment, fragment_source) {
            Ok(h) => h,
            Err(e) => {
                return Err(ShaderError::Compile(e));
            },
        };
        match link_program(ctx, vertex, fragment) {
            Ok(shader) => Ok(shader),
            Err(e) => Err(ShaderError::Link(e)),
        }
    }

    /// Makes this program current for subsequent draw calls.
    pub fn activate(&mut self, ctx: &mut GlContext)
        requires
            old(ctx).program_live(old(self).id),
            old(ctx).program_linked(old(self).id),
        ensures
            *final(ctx) == (GlContext { current_program: old(self).id, ..*old(ctx) }),
            final(self).id == old(self).id,
            final(self).state == ProgramState::Active,
    {
        ctx.current_program = self.id;
        self.state = ProgramState::Active;
    }

    /// Looks a uniform up by exact name; absence yields the sentinel -1,
    /// which is not an error.
    pub fn uniform_location(&self, ctx: &GlContext, name: &[u8]) -> (r: i32)
        requires
            ctx.program_live(self.id),
            ctx.wf(),
        ensures
            r as int == uniform_location_of(ctx.program_uniforms(self.id), name@),
            r == -1 <==> !ctx.program_uniforms(self.id).contains(name@),
    {
        proof {
            assert(ctx.programs@[self.id as int - 1].uniforms@.len()
                <= crate::context::MAX_PROGRAM_UNIFORMS);
        }
        let rec = &ctx.programs[(self.id - 1) as usize];
        let r = find_uniform(&rec.uniforms, name);
        proof {
            let us = ctx.program_uniforms(self.id);
            crate::glsl::lemma_scan_uniform_index(us, name@, 0);
            if r == -1 {
                assert(!us.contains(name@)) by {
                    if us.contains(name@) {
                        let j = choose|j: int| 0 <= j < us.len() && us[j] == name@;
                        assert(us[j] != name@);
                    }
                }
            } else {
                assert(us.contains(name@)) by {
                    assert(us[r as int] == name@);
                }
            }
        }
        r
    }

    /// Deletes the program object.  Consuming `self` enforces the
    /// single-release discipline.  The driver defers destruction of a
    /// program still in use, so the current-program slot is untouched.
    pub fn delete(self, ctx: &mut GlContext)
        requires
            old(ctx).program_live(self.id),
        ensures
            final(ctx).programs@.len() == old(ctx).programs@.len(),
            final(ctx).is_program(self.id),
            !final(ctx).program_live(self.id),
            !final(ctx).program_linked(self.id),
            final(ctx).program_uniforms(self.id) == Seq::<Seq<u8>>::empty(),
            forall|j: int|
                0 <= j < old(ctx).programs@.len() && j != self.id - 1 ==> final(ctx).programs@[j]
                    == old(ctx).programs@[j],
            *final(ctx) == (GlContext { programs: final(ctx).programs, ..*old(ctx) }),
            old(ctx).wf() ==> final(ctx).wf(),
    {
        let i = (self.id - 1) as usize;
        ctx.programs[i] = ProgramRec {
            linked: false,
            uniforms: Vec::new(),
            values: Vec::new(),
            live: false,
        };
        proof {
            assert(ctx.program_uniforms(self.id) =~= Seq::<Seq<u8>>::empty());
        }
    }
}

} // verus!
