use vstd::prelude::*;

use crate::backend;
use crate::backend::MathBackend;
use crate::geometry;
use crate::geometry::{Face, Vertex};

verus! {

/// One named drawing layer: a transform (only ever a pure translation in
/// practice), an append-only triangle mesh, and a visibility flag.
pub struct Layer {
    pub model: [u32; 16],
    pub verts: Vec<Vertex>,
    pub faces: Vec<Face>,
    pub is_hidden: bool,
}

impl Layer {
    /// Every triangle index references a valid vertex offset, and the
    /// vertex count stays within the index type.
    pub open spec fn wf(self) -> bool {
        &&& self.verts@.len() <= u32::MAX
        &&& forall|i: int, j: int|
            0 <= i < self.faces@.len() && 0 <= j < 3 ==> (#[trigger] self.faces@[i].idxs[j])
                < self.verts@.len()
    }

    /// A fresh layer: identity transform, no geometry, visible. A layer
    /// with zero triangles still renders (as nothing) and is valid.
    pub fn new() -> (l: Layer)
        ensures
            l.wf(),
            l.model@ == backend::spec_identity(),
            l.verts@.len() == 0,
            l.faces@.len() == 0,
            !l.is_hidden,
    {
        Layer {
            model: backend::identity(),
            verts: Vec::new(),
            faces: Vec::new(),
            is_hidden: false,
        }
    }

    /// Appends a chunk of geometry to the layer: the vertices exactly as
    /// given, then each triangle with its indices offset by the vertex
    /// count before the append, so that they keep referencing the chunk's
    /// own vertices. A chunk whose vertices would push the layer past the
    /// index type's range is dropped whole, leaving the layer untouched.
    pub fn append_geometry(&mut self, verts: &Vec<Vertex>, faces: &Vec<Face>)
        requires
            old(self).wf(),
            forall|i: int, j: int|
                0 <= i < faces@.len() && 0 <= j < 3 ==> (#[trigger] faces@[i].idxs[j])
                    < verts@.len(),
        ensures
            final(self).wf(),
            final(self).model == old(self).model,
            final(self).is_hidden == old(self).is_hidden,
            if old(self).verts@.len() + verts@.len() <= u32::MAX {
                &&& final(self).verts@ == old(self).verts@ + verts@
                &&& final(self).faces@.len() == old(self).faces@.len() + faces@.len()
                &&& final(self).faces@.subrange(0, old(self).faces@.len() as int) == old(
                    self,
                ).faces@
                &&& forall|i: int, j: int|
                    0 <= i < faces@.len() && 0 <= j < 3
                        ==> final(self).faces@[old(self).faces@.len() + i].idxs[j] == (
                    #[trigger] faces@[i].idxs[j]) + old(self).verts@.len()
            } else {
                final(self).verts@ == old(self).verts@ && final(self).faces@ == old(
                    self,
                ).faces@
            },
    {
        if verts.len() > (u32::MAX as usize) - self.verts.len() {
            return;
        }
        let off: u32 = self.verts.len() as u32;
        let ghost pre: Layer = *self;
        let mut i: usize = 0;
        while i < verts.len()
            invariant
                i <= verts@.len(),
                self.verts@ == pre.verts@ + verts@.subrange(0, i as int),
                self.faces == pre.faces,
                self.model == pre.model,
                self.is_hidden == pre.is_hidden,
            decreases verts@.len() - i,
        {
            self.verts.push(verts[i]);
            i = i + 1;
            proof {
                assert(self.verts@ =~= pre.verts@ + verts@.subrange(0, i as int));
            }
        }
        proof {
            assert(verts@.subrange(0, verts@.len() as int) =~= verts@);
        }
        let mut k: usize = 0;
        while k < faces.len()
            invariant
                k <= faces@.len(),
                off == pre.verts@.len(),
                pre.verts@.len() + verts@.len() <= u32::MAX,
                forall|a: int, b: int|
                    0 <= a < faces@.len() && 0 <= b < 3 ==> (#[trigger] faces@[a].idxs[b])
                        < verts@.len(),
                self.verts@ == pre.verts@ + verts@,
                self.faces@.len() == pre.faces@.len() + k,
                self.faces@.subrange(0, pre.faces@.len() as int) == pre.faces@,
                forall|a: int, b: int|
                    0 <= a < k && 0 <= b < 3 ==> self.faces@[pre.faces@.len() + a].idxs[b] == (
                    #[trigger] faces@[a].idxs[b]) + pre.verts@.len(),
                self.model == pre.model,
                self.is_hidden == pre.is_hidden,
            decreases faces@.len() - k,
        {
            let f: Face = faces[k];
            self.faces.push(Face { idxs: [f.idxs[0] + off, f.idxs[1] + off, f.idxs[2] + off] });
            k = k + 1;
            proof {
                assert(self.faces@.subrange(0, pre.faces@.len() as int) =~= pre.faces@);
            }
        }
        proof {
            assert forall|a: int, b: int|
                0 <= a < self.faces@.len() && 0 <= b < 3 implies (
            #[trigger] self.faces@[a].idxs[b]) < self.verts@.len() by {
                if a < pre.faces@.len() {
                    assert(self.faces@[a] == pre.faces@[a]);
                    assert(pre.faces@[a].idxs[b] < pre.verts@.len());
                } else {
                    assert(self.faces@[a].idxs[b] == faces@[a - pre.faces@.len()].idxs[b]
                        + pre.verts@.len());
                    assert(faces@[a - pre.faces@.len()].idxs[b] < verts@.len());
                }
            }
        }
    }
}

/// A layer under its name.
pub struct LayerEntry {
    pub name: Vec<u8>,
    pub layer: Layer,
}

/// The named collection of drawing layers, in creation order. A layer is
/// created implicitly by the first draw addressed to an unseen name,
/// destroyed only by an explicit delete, and toggled in place otherwise;
/// every lookup by an unknown name reports `false`, never an error.
pub struct LayerStore {
    pub entries: Vec<LayerEntry>,
}

impl LayerStore {
    /// Names are unique and every layer is well formed.
    pub open spec fn wf(self) -> bool {
        &&& forall|i: int| 0 <= i < self.entries@.len() ==> (#[trigger] self.entries@[i]).layer.wf()
        &&& forall|i: int, j: int|
            0 <= i < j < self.entries@.len() ==> self.entries@[i].name@ != self.entries@[j].name@
    }

    /// Entry `i` exists and carries `name`.
    pub open spec fn name_at_is(self, i: int, name: Seq<u8>) -> bool {
        0 <= i < self.entries@.len() && self.entries@[i].name@ == name
    }

    /// A layer of that name exists.
    pub open spec fn has(self, name: Seq<u8>) -> bool {
        exists|i: int| self.name_at_is(i, name)
    }

    /// The position of the layer of that name (meaningful when it exists;
    /// unique under [`LayerStore::wf`]).
    pub open spec fn idx_of(self, name: Seq<u8>) -> int {
        choose|i: int| self.name_at_is(i, name)
    }

    /// The layer names, in creation order.
    pub open spec fn names(self) -> Seq<Seq<u8>> {
        self.entries@.map_values(|e: LayerEntry| e.name@)
    }

    /// An empty store.
    pub fn new() -> (s: LayerStore)
        ensures
            s.wf(),
            s.entries@.len() == 0,
    {
        LayerStore { entries: Vec::new() }
    }

    /// The position of the layer of that name, if any.
    fn find(&self, name: &Vec<u8>) -> (r: Option<usize>)
        ensures
            match r {
                Some(i) => self.name_at_is(i as int, name@),
                None => !self.has(name@),
            },
    {
        let mut i: usize = 0;
        while i < self.entries.len()
            invariant
                i <= self.entries@.len(),
                forall|k: int| 0 <= k < i ==> self.entries@[k].name@ != name@,
            decreases self.entries@.len() - i,
        {
            if bytes_eq(&self.entries[i].name, name) {
                return Some(i);
            }
            i = i + 1;
        }
        None
    }
}

/// How a draw-line call leaves one layer's geometry: either untouched (a
/// degenerate segment, or no room left to offset indices, draws nothing)
/// or a quad appended, its triangle indices offset by the vertex count
/// before the append, so that they reference only the four new vertices.
pub open spec fn geometry_extended(pre: Layer, post: Layer, color: [u32; 4]) -> bool {
    &&& post.model == pre.model
    &&& post.is_hidden == pre.is_hidden
    &&& {
        ||| (post.verts@ == pre.verts@ && post.faces@ == pre.faces@)
        ||| {
            let off = pre.verts@.len() as int;
            &&& off + 4 <= u32::MAX
            &&& post.verts@.len() == off + 4
            &&& post.verts@.subrange(0, off) == pre.verts@
            &&& forall|i: int|
                off <= i < off + 4 ==> (#[trigger] post.verts@[i]).color == color
                    && post.verts@[i].uv[0] == 0 && post.verts@[i].uv[1] == 0
            &&& post.faces@.len() == pre.faces@.len() + 2
            &&& post.faces@.subrange(0, pre.faces@.len() as int) == pre.faces@
            &&& post.faces@[pre.faces@.len() as int].idxs[0] == off
            &&& post.faces@[pre.faces@.len() as int].idxs[1] == off + 1
            &&& post.faces@[pre.faces@.len() as int].idxs[2] == off + 2
            &&& post.faces@[pre.faces@.len() as int + 1].idxs[0] == off + 2
            &&& post.faces@[pre.faces@.len() as int + 1].idxs[1] == off + 1
            &&& post.faces@[pre.faces@.len() as int + 1].idxs[2] == off + 3
        }
    }
}

/// How a draw-line call leaves the whole store: the named layer (created
/// at the end if the name was unseen) has its geometry extended as
/// [`geometry_extended`] says, and every other layer is untouched.
pub open spec fn draw_line_applied(
    pre: LayerStore,
    post: LayerStore,
    name: Seq<u8>,
    color: [u32; 4],
) -> bool {
    if pre.has(name) {
        let i = pre.idx_of(name);
        &&& post.entries@.len() == pre.entries@.len()
        &&& forall|k: int|
            0 <= k < pre.entries@.len() && k != i ==> post.entries@[k] == pre.entries@[k]
        &&& post.entries@[i].name@ == name
        &&& geometry_extended(pre.entries@[i].layer, post.entries@[i].layer, color)
    } else {
        &&& post.entries@.len() == pre.entries@.len() + 1
        &&& forall|k: int|
            0 <= k < pre.entries@.len() ==> post.entries@[k] == pre.entries@[k]
        &&& post.entries@.last().name@ == name
        &&& post.entries@.last().layer.model@ == backend::spec_identity()
        &&& !post.entries@.last().layer.is_hidden
        &&& geometry::quad_shape(
            post.entries@.last().layer.verts@,
            post.entries@.last().layer.faces@,
            color,
        )
    }
}

impl LayerStore {
    /// Builds the segment's quad and appends it to the named layer,
    /// creating the layer if the name is unseen; the new triangle indices
    /// are offset by the layer's vertex count before the append.
    /// Fire-and-forget: a degenerate segment silently draws nothing.
    pub fn draw_line<B: MathBackend>(
        &mut self,
        ops: &B,
        name: Vec<u8>,
        x1: u32,
        y1: u32,
        x2: u32,
        y2: u32,
        thickness: u32,
        color: [u32; 4],
    )
        requires
            old(self).wf(),
        ensures
            final(self).wf(),
            draw_line_applied(*old(self), *final(self), name@, color),
            final(self).has(name@),
    {
        let ghost pre: LayerStore = *self;
        let (verts, faces) = geometry::build_line(ops, x1, y1, x2, y2, thickness, color);
        let ghost existed: bool = pre.has(name@);
        let idx: usize = match self.find(&name) {
            Some(i) => {
                proof {
                    lemma_idx_determined(pre, i as int, name@);
                }
                i
            },
            None => {
                let i: usize = self.entries.len();
                self.entries.push(LayerEntry { name, layer: Layer::new() });
                i
            },
        };
        let ghost mid: LayerStore = *self;
        let e = &mut self.entries[idx];
        let ghost pre_e: LayerEntry = *e;
        proof {
            assert forall|i: int, j: int|
                0 <= i < faces@.len() && 0 <= j < 3 implies (#[trigger] faces@[i].idxs[j])
                < verts@.len() by {}
        }
        e.layer.append_geometry(&verts, &faces);
        proof {
            let off_i = pre_e.layer.verts@.len() as int;
            if verts@.len() == 0 {
                assert(e.layer.verts@ =~= pre_e.layer.verts@);
                assert(e.layer.faces@ =~= pre_e.layer.faces@);
                assert(geometry_extended(pre_e.layer, e.layer, color));
            } else if off_i + 4 <= u32::MAX {
                assert(e.layer.verts@.subrange(0, off_i) =~= pre_e.layer.verts@);
                assert forall|i: int|
                    off_i <= i < off_i + 4 implies (#[trigger] e.layer.verts@[i]).color == color
                    && e.layer.verts@[i].uv[0] == 0 && e.layer.verts@[i].uv[1] == 0 by {
                    assert(e.layer.verts@[i] == verts@[i - off_i]);
                    assert(verts@[i - off_i].color == color);
                    assert(verts@[i - off_i].uv[0] == 0);
                    assert(verts@[i - off_i].uv[1] == 0);
                }
                assert(e.layer.faces@[pre_e.layer.faces@.len() as int].idxs[0] == faces@[0].idxs[0]
                    + off_i);
                assert(e.layer.faces@[pre_e.layer.faces@.len() as int + 1].idxs[0]
                    == faces@[1].idxs[0] + off_i);
                assert(geometry_extended(pre_e.layer, e.layer, color));
            } else {
                assert(geometry_extended(pre_e.layer, e.layer, color));
            }
        }
        proof {
            if existed {
                let i = pre.idx_of(name@);
                assert(pre.name_at_is(i, name@));
                assert(i == idx as int);
                assert(draw_line_applied(pre, *self, name@, color));
                assert(self.name_at_is(i, name@));
            } else {
                assert(mid.entries@.last().layer.verts@.len() == 0);
                assert(draw_line_applied(pre, *self, name@, color));
                assert(self.name_at_is(pre.entries@.len() as int, name@));
            }
            assert forall|i: int| 0 <= i < self.entries@.len() implies (
            #[trigger] self.entries@[i]).layer.wf() by {
                if existed && i == pre.idx_of(name@) {
                } else if !existed && i == pre.entries@.len() as int {
                } else {
                    assert(self.entries@[i] == pre.entries@[i]);
                }
            }
            assert forall|a: int, b: int|
                0 <= a < b < self.entries@.len() implies self.entries@[a].name@
                != self.entries@[b].name@ by {
                if existed {
                    let i = pre.idx_of(name@);
                    assert(self.entries@[a].name@ == pre.entries@[a].name@);
                    assert(self.entries@[b].name@ == pre.entries@[b].name@);
                } else {
                    if b < pre.entries@.len() {
                        assert(self.entries@[a] == pre.entries@[a]);
                        assert(self.entries@[b] == pre.entries@[b]);
                    } else {
                        assert(self.entries@[a] == pre.entries@[a]);
                        assert(!pre.name_at_is(a, name@));
                        assert(self.entries@[b].name@ == name@);
                    }
                }
            }
        }
    }
}

/// How a delete leaves the store: the named layer's entry removed and the
/// order of the rest kept, or everything untouched when the name is
/// unknown.
pub open spec fn layer_removed(pre: LayerStore, post: LayerStore, name: Seq<u8>) -> bool {
    if pre.has(name) {
        let i = pre.idx_of(name);
        &&& post.entries@.len() == pre.entries@.len() - 1
        &&& forall|k: int| 0 <= k < i ==> post.entries@[k] == pre.entries@[k]
        &&& forall|k: int|
            i <= k < post.entries@.len() ==> post.entries@[k] == pre.entries@[k + 1]
    } else {
        post == pre
    }
}

/// How a visibility toggle leaves the store: only the named layer's
/// hidden flag set, or everything untouched when the name is unknown.
pub open spec fn visibility_set(
    pre: LayerStore,
    post: LayerStore,
    name: Seq<u8>,
    hidden: bool,
) -> bool {
    if pre.has(name) {
        let i = pre.idx_of(name);
        &&& post.entries@.len() == pre.entries@.len()
        &&& forall|k: int|
            0 <= k < pre.entries@.len() && k != i ==> post.entries@[k] == pre.entries@[k]
        &&& post.entries@[i].name == pre.entries@[i].name
        &&& post.entries@[i].layer.model == pre.entries@[i].layer.model
        &&& post.entries@[i].layer.verts == pre.entries@[i].layer.verts
        &&& post.entries@[i].layer.faces == pre.entries@[i].layer.faces
        &&& post.entries@[i].layer.is_hidden == hidden
    } else {
        post == pre
    }
}

/// How a set-position leaves the store: only the named layer's transform
/// replaced (overwritten, not composed) by a pure translation, or
/// everything untouched when the name is unknown.
pub open spec fn position_set(
    pre: LayerStore,
    post: LayerStore,
    name: Seq<u8>,
    x: u32,
    y: u32,
) -> bool {
    if pre.has(name) {
        let i = pre.idx_of(name);
        &&& post.entries@.len() == pre.entries@.len()
        &&& forall|k: int|
            0 <= k < pre.entries@.len() && k != i ==> post.entries@[k] == pre.entries@[k]
        &&& post.entries@[i].name == pre.entries@[i].name
        &&& post.entries@[i].layer.model@ == backend::spec_translation(x, y)
        &&& post.entries@[i].layer.verts == pre.entries@[i].layer.verts
        &&& post.entries@[i].layer.faces == pre.entries@[i].layer.faces
        &&& post.entries@[i].layer.is_hidden == pre.entries@[i].layer.is_hidden
    } else {
        post == pre
    }
}

impl LayerStore {
    /// Removes the named layer. Returns whether it existed; an unknown
    /// name is not an error.
    pub fn delete_layer(&mut self, name: &Vec<u8>) -> (r: bool)
        requires
            old(self).wf(),
        ensures
            final(self).wf(),
            r == old(self).has(name@),
            layer_removed(*old(self), *final(self), name@),
    {
        let ghost pre: LayerStore = *self;
        match self.find(name) {
            None => false,
            Some(i) => {
                proof {
                    lemma_idx_determined(pre, i as int, name@);
                }
                self.entries.remove(i);
                proof {
                    let ii = i as int;
                    assert forall|k: int|
                        0 <= k < self.entries@.len() implies self.entries@[k] == (if k < ii {
                        pre.entries@[k]
                    } else {
                        pre.entries@[k + 1]
                    }) by {
                        assert(self.entries@ == pre.entries@.remove(ii));
                    }
                    assert forall|a: int, b: int|
                        0 <= a < b < self.entries@.len() implies self.entries@[a].name@
                        != self.entries@[b].name@ by {
                        let a2 = if a < ii { a } else { a + 1 };
                        let b2 = if b < ii { b } else { b + 1 };
                        assert(pre.entries@[a2].name@ != pre.entries@[b2].name@);
                    }
                }
                true
            },
        }
    }

    /// Sets the named layer's hidden flag in place. Returns whether it
    /// existed; the store is unchanged when it does not.
    pub fn set_visible(&mut self, name: &Vec<u8>, hidden: bool) -> (r: bool)
        requires
            old(self).wf(),
        ensures
            final(self).wf(),
            r == old(self).has(name@),
            visibility_set(*old(self), *final(self), name@, hidden),
    {
        let ghost pre: LayerStore = *self;
        match self.find(name) {
            None => false,
            Some(i) => {
                proof {
                    lemma_idx_determined(pre, i as int, name@);
                }
                let e = &mut self.entries[i];
                e.layer.is_hidden = hidden;
                proof {
                    assert forall|a: int, b: int|
                        0 <= a < b < self.entries@.len() implies self.entries@[a].name@
                        != self.entries@[b].name@ by {
                        assert(self.entries@[a].name@ == pre.entries@[a].name@);
                        assert(self.entries@[b].name@ == pre.entries@[b].name@);
                    }
                }
                true
            },
        }
    }

    /// Replaces the named layer's transform with a pure translation to
    /// `(x, y)`. Returns whether it existed; the store is unchanged when
    /// it does not.
    pub fn set_layer_position(&mut self, name: &Vec<u8>, x: u32, y: u32) -> (r: bool)
        requires
            old(self).wf(),
        ensures
            final(self).wf(),
            r == old(self).has(name@),
            position_set(*old(self), *final(self), name@, x, y),
    {
        let ghost pre: LayerStore = *self;
        match self.find(name) {
            None => false,
            Some(i) => {
                proof {
                    lemma_idx_determined(pre, i as int, name@);
                }
                let e = &mut self.entries[i];
                e.layer.model = backend::translation(x, y);
                proof {
                    assert forall|a: int, b: int|
                        0 <= a < b < self.entries@.len() implies self.entries@[a].name@
                        != self.entries@[b].name@ by {
                        assert(self.entries@[a].name@ == pre.entries@[a].name@);
                        assert(self.entries@[b].name@ == pre.entries@[b].name@);
                    }
                }
                true
            },
        }
    }

    /// The layer names, in creation order: deterministic for the life of
    /// the store.
    pub fn list_layers(&self) -> (names: Vec<Vec<u8>>)
        ensures
            crate::codec::names_view(names@) == self.names(),
    {
        let mut names: Vec<Vec<u8>> = Vec::new();
        let mut i: usize = 0;
        while i < self.entries.len()
            invariant
                i <= self.entries@.len(),
                names@.len() == i,
                forall|k: int| 0 <= k < i ==> (#[trigger] names@[k])@ == self.entries@[k].name@,
            decreases self.entries@.len() - i,
        {
            names.push(clone_name(&self.entries[i].name));
            i = i + 1;
        }
        proof {
            assert forall|k: int|
                0 <= k < names@.len() implies #[trigger] crate::codec::names_view(names@)[k]
                == self.names()[k] by {
                assert(names@[k]@ == self.entries@[k].name@);
            }
            assert(crate::codec::names_view(names@) =~= self.names());
        }
        names
    }
}

/// The integer values of a vector of entry positions.
pub open spec fn indices_view(v: Seq<usize>) -> Seq<int> {
    v.map_values(|u: usize| u as int)
}

/// The entry positions a render pass draws: exactly those whose layer is
/// not hidden, in creation order.
pub open spec fn spec_visible(s: Seq<LayerEntry>) -> Seq<int>
    decreases s.len(),
{
    if s.len() == 0 {
        Seq::empty()
    } else {
        spec_visible(s.drop_last()) + (if s.last().layer.is_hidden {
            Seq::<int>::empty()
        } else {
            seq![s.len() - 1]
        })
    }
}

impl LayerStore {
    /// The positions of the layers a render pass draws: exactly those not
    /// hidden, in creation order. Hiding a layer excludes it here while
    /// it stays in the store and its listing.
    pub fn visible_indices(&self) -> (r: Vec<usize>)
        ensures
            indices_view(r@) == spec_visible(self.entries@),
            forall|k: int| 0 <= k < r@.len() ==> (#[trigger] r@[k]) < self.entries@.len(),
    {
        let mut r: Vec<usize> = Vec::new();
        let mut i: usize = 0;
        while i < self.entries.len()
            invariant
                i <= self.entries@.len(),
                indices_view(r@) == spec_visible(self.entries@.subrange(0, i as int)),
                forall|k: int| 0 <= k < r@.len() ==> (#[trigger] r@[k]) < i,
            decreases self.entries@.len() - i,
        {
            if !self.entries[i].layer.is_hidden {
                r.push(i);
            }
            i = i + 1;
            proof {
                assert(self.entries@.subrange(0, i as int).drop_last() =~= self.entries@.subrange(
                    0,
                    i as int - 1,
                ));
                assert(self.entries@.subrange(0, i as int).last() == self.entries@[i as int - 1]);
                assert(indices_view(r@) =~= spec_visible(self.entries@.subrange(0, i as int)));
            }
        }
        proof {
            assert(self.entries@.subrange(0, self.entries@.len() as int) =~= self.entries@);
        }
        r
    }
}

/// When entry `i` carries `name` and the store is well formed, `i` is the
/// store's index for `name`.
pub proof fn lemma_idx_determined(s: LayerStore, i: int, name: Seq<u8>)
    requires
        s.wf(),
        s.name_at_is(i, name),
    ensures
        s.has(name),
        s.idx_of(name) == i,
{
    assert(s.has(name));
    let j = s.idx_of(name);
    assert(s.name_at_is(j, name));
    if i < j {
        assert(s.entries@[i].name@ != s.entries@[j].name@);
    } else if j < i {
        assert(s.entries@[j].name@ != s.entries@[i].name@);
    }
}

/// A fresh copy of a byte name.
pub fn clone_name(v: &Vec<u8>) -> (r: Vec<u8>)
    ensures
        r@ == v@,
{
    let mut r: Vec<u8> = Vec::new();
    let mut i: usize = 0;
    while i < v.len()
        invariant
            i <= v@.len(),
            r@ == v@.subrange(0, i as int),
        decreases v@.len() - i,
    {
        r.push(v[i]);
        i = i + 1;
        proof {
            assert(r@ =~= v@.subrange(0, i as int));
        }
    }
    proof {
        assert(v@.subrange(0, v@.len() as int) =~= v@);
    }
    r
}

/// Whether two byte names are equal.
pub fn bytes_eq(a: &Vec<u8>, b: &Vec<u8>) -> (r: bool)
    ensures
        r == (a@ == b@),
{
    if a.len() != b.len() {
        return false;
    }
    let mut i: usize = 0;
    while i < a.len()
        invariant
            a@.len() == b@.len(),
            i <= a@.len(),
            forall|k: int| 0 <= k < i ==> a@[k] == b@[k],
        decreases a@.len() - i,
    {
        if a[i] != b[i] {
            return false;
        }
        i = i + 1;
    }
    proof {
        assert(a@ =~= b@);
    }
    true
}

} // verus!
