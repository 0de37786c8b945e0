//! Buffer objects: one GPU-side allocation, uploaded once at construction.
//!
//! Vertex-data and index-data buffers are structurally identical; the kind
//! tag only selects which context-global binding target they go through.

use vstd::prelude::*;

use crate::context::BufferRec;
use crate::context::GlContext;

verus! {

/// Which binding target a buffer goes through.
#[derive(Clone, Copy, Debug, PartialEq, Eq, Structural)]
pub enum BufferKind {
    /// Vertex-attribute data.
    Vertex,
    /// Index data for indexed draws.
    Index,
}

/// Exclusive owner of exactly one GPU buffer allocation.  The type has no
/// copy or clone operation, so the handle cannot be duplicated, and
/// `delete` consumes the value, so the single-release discipline is
/// enforced by ownership.
#[derive(Debug)]
pub struct GpuBuffer {
    pub id: u32,
    pub kind: BufferKind,
}

impl GpuBuffer {
    /// Allocates a buffer, uploads `data` verbatim as an upload-once
    /// resource, and leaves the new buffer bound to its target.
    pub fn new(ctx: &mut GlContext, kind: BufferKind, data: Vec<u8>) -> (r: GpuBuffer)
        requires
            old(ctx).buffers@.len() < u32::MAX as usize,
        ensures
            r.kind == kind,
            r.id != 0,
            r.id as int == old(ctx).buffers@.len() + 1,
            final(ctx).buffers@ == old(ctx).buffers@.push(
                (BufferRec { kind, data, live: true }),
            ),
            final(ctx).buffer_live(r.id),
            final(ctx).buffer_kind(r.id) == kind,
            final(ctx).buffer_data(r.id) == data@,
            kind == BufferKind::Vertex ==> *final(ctx) == (GlContext {
                buffers: final(ctx).buffers,
                bound_array_buffer: r.id,
                ..*old(ctx)
            }),
            kind == BufferKind::Index ==> *final(ctx) == (GlContext {
                buffers: final(ctx).buffers,
                bound_element_buffer: r.id,
                ..*old(ctx)
            }),
    {
        let n = ctx.buffers.len();
        let id = (n + 1) as u32;
        ctx.buffers.push(BufferRec { kind, data, live: true });
        match kind {
            BufferKind::Vertex => {
                ctx.bound_array_buffer = id;
            },
            BufferKind::Index => {
                ctx.bound_element_buffer = id;
            },
        }
        GpuBuffer { id, kind }
    }

    /// Makes this buffer current on its kind's target; pure binding-state
    /// side effect, no error conditions.
    pub fn bind(&self, ctx: &mut GlContext)
        ensures
            self.kind == BufferKind::Vertex ==> *final(ctx) == (GlContext {
                bound_array_buffer: self.id,
                ..*old(ctx)
            }),
            self.kind == BufferKind::Index ==> *final(ctx) == (GlContext {
                bound_element_buffer: self.id,
                ..*old(ctx)
            }),
            final(ctx).binding_of(self.kind) == self.id,
    {
        match self.kind {
            BufferKind::Vertex => {
                ctx.bound_array_buffer = self.id;
            },
            BufferKind::Index => {
                ctx.bound_element_buffer = self.id;
            },
        }
    }

    /// Clears this buffer's kind's target binding.
    pub fn unbind(&self, ctx: &mut GlContext)
        ensures
            self.kind == BufferKind::Vertex ==> *final(ctx) == (GlContext {
                bound_array_buffer: 0,
                ..*old(ctx)
            }),
            self.kind == BufferKind::Index ==> *final(ctx) == (GlContext {
                bound_element_buffer: 0,
                ..*old(ctx)
            }),
            final(ctx).binding_of(self.kind) == 0,
    {
        match self.kind {
            BufferKind::Vertex => {
                ctx.bound_array_buffer = 0;
            },
            BufferKind::Index => {
                ctx.bound_element_buffer = 0;
            },
        }
    }

    /// Reads `count` bytes starting at `offset` out of the buffer's
    /// payload, exactly as uploaded: no transformation, no reordering.
    pub fn read_back(&self, ctx: &GlContext, offset: usize, count: usize) -> (r: Vec<u8>)
        requires
            ctx.buffer_live(self.id),
            offset + count <= ctx.buffer_data(self.id).len(),
        ensures
            r@ == ctx.buffer_data(self.id).subrange(offset as int, offset as int + count as int),
    {
        let rec = &ctx.buffers[(self.id - 1) as usize];
        let data_len = rec.data.len();
        let mut r: Vec<u8> = Vec::new();
        let mut j: usize = 0;
        while j < count
            invariant
                ctx.buffer_live(self.id),
                offset + count <= ctx.buffer_data(self.id).len(),
                rec == ctx.buffers@[self.id as int - 1],
                data_len == rec.data@.len(),
                j <= count,
                r@ == ctx.buffer_data(self.id).subrange(offset as int, offset as int + j as int),
            decreases count - j,
        {
            r.push(rec.data[offset + j]);
            j = j + 1;
            proof {
                assert(r@ =~= ctx.buffer_data(self.id).subrange(
                    offset as int,
                    offset as int + j as int,
                ));
            }
        }
        r
    }

    /// Releases the GPU allocation.  Consuming `self` makes a second
    /// release unrepresentable; the freed handle stays dead forever.  As
    /// the driver does, deleting a buffer also clears any target binding
    /// that still names it.
    pub fn delete(self, ctx: &mut GlContext)
        requires
            old(ctx).buffer_live(self.id),
        ensures
            final(ctx).buffers@.len() == old(ctx).buffers@.len(),
            !final(ctx).buffer_live(self.id),
            final(ctx).is_buffer(self.id),
            final(ctx).buffer_kind(self.id) == old(ctx).buffer_kind(self.id),
            final(ctx).buffer_data(self.id) == Seq::<u8>::empty(),
            forall|j: int|
                0 <= j < old(ctx).buffers@.len() && j != self.id - 1 ==> final(ctx).buffers@[j]
                    == old(ctx).buffers@[j],
            *final(ctx) == (GlContext {
                buffers: final(ctx).buffers,
                bound_array_buffer: if old(ctx).bound_array_buffer == self.id {
                    0u32
                } else {
                    old(ctx).bound_array_buffer
                },
                bound_element_buffer: if old(ctx).bound_element_buffer == self.id {
                    0u32
                } else {
                    old(ctx).bound_element_buffer
                },
                ..*old(ctx)
            }),
    {
        let i = (self.id - 1) as usize;
        let kind = ctx.buffers[i].kind;
        ctx.buffers[i] = BufferRec { kind, data: Vec::new(), live: false };
        if ctx.bound_array_buffer == self.id {
            ctx.bound_array_buffer = 0;
        }
        if ctx.bound_element_buffer == self.id {
            ctx.bound_element_buffer = 0;
        }
    }
}

} // verus!
