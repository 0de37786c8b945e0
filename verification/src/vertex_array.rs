//! Vertex arrays: recorded attribute layouts feeding a shader's inputs.
//!
//! A vertex array does not own the buffers it reads from: it records, per
//! attribute slot, which layout a draw call will fetch with.  The wrapper
//! keeps that recorded state explicit, as a vector of layouts with unique
//! slots, abstracted by a map from slot to layout.

use vstd::prelude::*;

use crate::buffer::BufferKind;
use crate::buffer::GpuBuffer;
use crate::context::GlContext;
use crate::context::VertexArrayRec;

verus! {

/// One recorded attribute layout: where slot `slot` reads its data.
#[derive(Clone, Copy, Debug, PartialEq, Eq, Structural)]
pub struct AttribLayout {
    /// The shader input location this layout feeds.
    pub slot: u32,
    /// Components per vertex (1 to 4 in the modeled driver's terms).
    pub component_count: u32,
    /// Driver enum naming the component type.
    pub component_type: u32,
    /// Bytes from one vertex's data to the next.
    pub stride: u32,
    /// Bytes into the source buffer where the first component sits.
    pub byte_offset: u32,
}

/// No two recorded layouts claim the same slot.
pub open spec fn unique_slots(s: Seq<AttribLayout>) -> bool {
    forall|i: int, j: int|
        0 <= i < j < s.len() ==> (#[trigger] s[i]).slot != (#[trigger] s[j]).slot
}

/// The recorded layouts as a map from slot to layout; a later entry for
/// the same slot overwrites an earlier one.
pub open spec fn attrib_map_of(s: Seq<AttribLayout>) -> Map<u32, AttribLayout>
    decreases s.len(),
{
    if s.len() == 0 {
        Map::empty()
    } else {
        attrib_map_of(s.drop_last()).insert(s.last().slot, s.last())
    }
}

/// With unique slots, the map holds exactly the recorded layouts.
pub proof fn lemma_attrib_map_props(s: Seq<AttribLayout>)
    requires
        unique_slots(s),
    ensures
        forall|x: u32|
            #[trigger] attrib_map_of(s).contains_key(x) ==> exists|i: int|
                0 <= i < s.len() && (#[trigger] s[i]).slot == x,
        forall|i: int|
            0 <= i < s.len() ==> attrib_map_of(s).contains_key((#[trigger] s[i]).slot)
                && attrib_map_of(s)[s[i].slot] == s[i],
    decreases s.len(),
{
    if s.len() > 0 {
        let dl = s.drop_last();
        let last = s.last();
        lemma_attrib_map_props(dl);
        assert forall|i: int|
            0 <= i < s.len() implies attrib_map_of(s).contains_key((#[trigger] s[i]).slot)
            && attrib_map_of(s)[s[i].slot] == s[i] by {
            if i < s.len() - 1 {
                assert(dl[i] == s[i]);
                assert(s[i].slot != last.slot);
            }
        }
        assert forall|x: u32| #[trigger] attrib_map_of(s).contains_key(x) implies exists|i: int|
            0 <= i < s.len() && (#[trigger] s[i]).slot == x by {
            if x == last.slot {
                assert(s[s.len() - 1].slot == x);
            } else {
                assert(attrib_map_of(dl).contains_key(x));
                let i = choose|i: int| 0 <= i < dl.len() && (#[trigger] dl[i]).slot == x;
                assert(s[i].slot == x);
            }
        }
    }
}

/// Overwriting the unique entry of a slot in place is, on the map, an
/// insert at that slot.
pub proof fn lemma_attrib_map_update(s: Seq<AttribLayout>, k: int, al: AttribLayout)
    requires
        unique_slots(s),
        0 <= k < s.len(),
        s[k].slot == al.slot,
    ensures
        attrib_map_of(s.update(k, al)) == attrib_map_of(s).insert(al.slot, al),
    decreases s.len(),
{
    let t = s.update(k, al);
    let dl = s.drop_last();
    if k == s.len() - 1 {
        assert(t.drop_last() =~= dl);
        assert(t.last() == al);
        assert(attrib_map_of(t) =~= attrib_map_of(s).insert(al.slot, al));
    } else {
        let last = s.last();
        assert(t.drop_last() =~= dl.update(k, al));
        assert(t.last() == last);
        assert(dl[k] == s[k]);
        lemma_attrib_map_update(dl, k, al);
        assert(al.slot != last.slot);
        assert(attrib_map_of(dl).insert(al.slot, al).insert(last.slot, last) =~= attrib_map_of(
            dl,
        ).insert(last.slot, last).insert(al.slot, al));
        assert(attrib_map_of(t) =~= attrib_map_of(s).insert(al.slot, al));
    }
}

/// Exclusive owner of one vertex-array object, together with the layouts
/// recorded in it.  No copy or clone: the handle cannot be duplicated.
pub struct VertexArray {
    pub id: u32,
    pub attribs: Vec<AttribLayout>,
}

impl VertexArray {
    /// The recorded layouts keep one entry per slot.
    pub open spec fn wf(self) -> bool {
        unique_slots(self.attribs@)
    }

    /// The recorded layout state, slot by slot.
    pub open spec fn attrib_map(self) -> Map<u32, AttribLayout> {
        attrib_map_of(self.attribs@)
    }

    /// Allocates a vertex-array object with no attribute bindings yet.
    pub fn new(ctx: &mut GlContext) -> (r: VertexArray)
        requires
            old(ctx).vertex_arrays@.len() < u32::MAX as usize,
        ensures
            r.id != 0,
            r.id as int == old(ctx).vertex_arrays@.len() + 1,
            r.attribs@ =~= Seq::<AttribLayout>::empty(),
            r.wf(),
            r.attrib_map() == Map::<u32, AttribLayout>::empty(),
            final(ctx).vertex_arrays@ == old(ctx).vertex_arrays@.push(
                (VertexArrayRec { live: true }),
            ),
            final(ctx).vertex_array_live(r.id),
            *final(ctx) == (GlContext { vertex_arrays: final(ctx).vertex_arrays, ..*old(ctx) }),
    {
        let n = ctx.vertex_arrays.len();
        let id = (n + 1) as u32;
        ctx.vertex_arrays.push(VertexArrayRec { live: true });
        VertexArray { id, attribs: Vec::new() }
    }

    /// Makes this vertex array current.
    pub fn bind(&self, ctx: &mut GlContext)
        ensures
            *final(ctx) == (GlContext { bound_vertex_array: self.id, ..*old(ctx) }),
    {
        ctx.bound_vertex_array = self.id;
    }

    /// Clears the current-vertex-array slot.
    pub fn unbind(&self, ctx: &mut GlContext)
        ensures
            *final(ctx) == (GlContext { bound_vertex_array: 0, ..*old(ctx) }),
    {
        ctx.bound_vertex_array = 0;
    }

    /// Records the layout feeding `slot` from `vbo` and enables the slot,
    /// by the scoped protocol: bind the source buffer, describe the
    /// layout, enable, then restore the previous vertex-buffer binding.
    /// The description lands in the vertex array that is current, so this
    /// one must be bound; its current-ness survives the call, and on
    /// return the whole context stands as before.  Re-binding a slot
    /// silently overwrites the prior layout: last write wins.
    pub fn link_attrib(
        &mut self,
        ctx: &mut GlContext,
        vbo: &GpuBuffer,
        slot: u32,
        component_count: u32,
        component_type: u32,
        stride: u32,
        byte_offset: u32,
    )
        requires
            old(self).wf(),
            old(ctx).bound_vertex_array == old(self).id,
            old(ctx).buffer_live(vbo.id),
            vbo.kind == BufferKind::Vertex,
        ensures
            final(self).id == old(self).id,
            final(self).wf(),
            final(self).attrib_map() == old(self).attrib_map().insert(
                slot,
                (AttribLayout { slot, component_count, component_type, stride, byte_offset }),
            ),
            *final(ctx) == *old(ctx),
    {
        let prev = ctx.bound_array_buffer;
        vbo.bind(ctx);
        let al = AttribLayout { slot, component_count, component_type, stride, byte_offset };
        let n = self.attribs.len();
        let mut k: usize = 0;
        let mut found = false;
        while k < n && !found
            invariant
                k <= n,
                n == self.attribs@.len(),
                found ==> k < n && self.attribs@[k as int].slot == slot,
                !found ==> forall|j: int| 0 <= j < k ==> self.attribs@[j].slot != slot,
            decreases n - k, (!found) as int,
        {
            if self.attribs[k].slot == slot {
                found = true;
            } else {
                k = k + 1;
            }
        }
        let ghost pre = self.attribs@;
        if found {
            proof {
                lemma_attrib_map_update(pre, k as int, al);
            }
            self.attribs[k] = al;
            proof {
                assert(unique_slots(self.attribs@)) by {
                    assert forall|i: int, j: int|
                        0 <= i < j < self.attribs@.len() implies (#[trigger] self.attribs@[i]).slot
                        != (#[trigger] self.attribs@[j]).slot by {
                        assert(pre[i].slot != pre[j].slot);
                        assert(self.attribs@[i].slot == pre[i].slot);
                        assert(self.attribs@[j].slot == pre[j].slot);
                    }
                }
            }
        } else {
            self.attribs.push(al);
            proof {
                assert(self.attribs@.drop_last() =~= pre);
                assert(self.attribs@.last() == al);
                assert(unique_slots(self.attribs@)) by {
                    assert forall|i: int, j: int|
                        0 <= i < j < self.attribs@.len() implies (#[trigger] self.attribs@[i]).slot
                        != (#[trigger] self.attribs@[j]).slot by {
                        if j < self.attribs@.len() - 1 {
                            assert(pre[i].slot != pre[j].slot);
                        } else {
                            assert(pre[i].slot != slot);
                        }
                    }
                }
            }
        }
        ctx.bound_array_buffer = prev;
    }

    /// The layout recorded at `slot`, if any.
    pub fn attrib_at(&self, slot: u32) -> (r: Option<AttribLayout>)
        requires
            self.wf(),
        ensures
            r is Some <==> self.attrib_map().contains_key(slot),
            r matches Some(al) ==> al == self.attrib_map()[slot],
    {
        proof {
            lemma_attrib_map_props(self.attribs@);
        }
        let n = self.attribs.len();
        let mut k: usize = 0;
        while k < n
            invariant
                k <= n,
                n == self.attribs@.len(),
                self.wf(),
                forall|j: int| 0 <= j < k ==> self.attribs@[j].slot != slot,
            decreases n - k,
        {
            if self.attribs[k].slot == slot {
                proof {
                    lemma_attrib_map_props(self.attribs@);
                }
                return Some(self.attribs[k]);
            }
            k = k + 1;
        }
        proof {
            assert(!self.attrib_map().contains_key(slot)) by {
                if self.attrib_map().contains_key(slot) {
                    lemma_attrib_map_props(self.attribs@);
                }
            }
        }
        None
    }

    /// Releases the vertex-array object; consuming `self` enforces the
    /// single-release discipline.  As the driver does, deleting the
    /// current vertex array also clears the current-vertex-array slot.
    pub fn delete(self, ctx: &mut GlContext)
        requires
            old(ctx).vertex_array_live(self.id),
        ensures
            final(ctx).vertex_arrays@.len() == old(ctx).vertex_arrays@.len(),
            final(ctx).is_vertex_array(self.id),
            !final(ctx).vertex_array_live(self.id),
            forall|j: int|
                0 <= j < old(ctx).vertex_arrays@.len() && j != self.id - 1
                    ==> final(ctx).vertex_arrays@[j] == old(ctx).vertex_arrays@[j],
            *final(ctx) == (GlContext {
                vertex_arrays: final(ctx).vertex_arrays,
                bound_vertex_array: if old(ctx).bound_vertex_array == self.id {
                    0u32
                } else {
                    old(ctx).bound_vertex_array
                },
                ..*old(ctx)
            }),
    {
        let i = (self.id - 1) as usize;
        ctx.vertex_arrays[i] = VertexArrayRec { live: false };
        if ctx.bound_vertex_array == self.id {
            ctx.bound_vertex_array = 0;
        }
    }
}

} // verus!
