use vstd::prelude::*;

use crate::backend::MathBackend;
use crate::camera::CamOp;
use crate::codec::RequestModel;
use crate::layers;
use crate::layers::LayerStore;
use crate::stage;
use crate::stage::Stage;

verus! {

/// The vertex count of the named layer; zero when the name is unknown.
pub open spec fn vert_count(s: LayerStore, name: Seq<u8>) -> nat {
    if s.has(name) {
        s.entries@[s.idx_of(name)].layer.verts@.len()
    } else {
        0
    }
}

/// One draw-line call preserves the store's invariant and contributes
/// exactly four vertices to the named layer, or none when it drew
/// nothing.
pub proof fn lemma_draw_line_preserves_wf(
    pre: LayerStore,
    post: LayerStore,
    name: Seq<u8>,
    color: [u32; 4],
)
    requires
        pre.wf(),
        layers::draw_line_applied(pre, post, name, color),
    ensures
        post.wf(),
        post.has(name),
        vert_count(post, name) == vert_count(pre, name) || vert_count(post, name) == vert_count(
            pre,
            name,
        ) + 4,
{
    if pre.has(name) {
        let i = pre.idx_of(name);
        assert(pre.name_at_is(i, name));
        assert(post.name_at_is(i, name));
        assert forall|k: int| 0 <= k < post.entries@.len() implies (
        #[trigger] post.entries@[k]).layer.wf() by {
            if k != i {
                assert(post.entries@[k] == pre.entries@[k]);
            } else {
                let lpre = pre.entries@[i].layer;
                let lpost = post.entries@[i].layer;
                if !(lpost.verts@ == lpre.verts@ && lpost.faces@ == lpre.faces@) {
                    let off = lpre.verts@.len() as int;
                    assert forall|a: int, b: int|
                        0 <= a < lpost.faces@.len() && 0 <= b < 3 implies (
                    #[trigger] lpost.faces@[a].idxs[b]) < lpost.verts@.len() by {
                        if a < lpre.faces@.len() {
                            assert(lpost.faces@.subrange(0, lpre.faces@.len() as int)[a]
                                == lpre.faces@[a]);
                            assert(lpost.faces@[a] == lpre.faces@[a]);
                        }
                    }
                }
            }
        }
        assert forall|a: int, b: int|
            0 <= a < b < post.entries@.len() implies post.entries@[a].name@
            != post.entries@[b].name@ by {
            assert(post.entries@[a].name@ == pre.entries@[a].name@);
            assert(post.entries@[b].name@ == pre.entries@[b].name@);
        }
        layers::lemma_idx_determined(post, i, name);
    } else {
        let n = pre.entries@.len() as int;
        assert(post.name_at_is(n, name));
        assert forall|k: int| 0 <= k < post.entries@.len() implies (
        #[trigger] post.entries@[k]).layer.wf() by {
            if k < n {
                assert(post.entries@[k] == pre.entries@[k]);
            } else {
                assert(post.entries@[k] == post.entries@.last());
            }
        }
        assert forall|a: int, b: int|
            0 <= a < b < post.entries@.len() implies post.entries@[a].name@
            != post.entries@[b].name@ by {
            if b < n {
                assert(post.entries@[a] == pre.entries@[a]);
                assert(post.entries@[b] == pre.entries@[b]);
            } else {
                assert(post.entries@[a] == pre.entries@[a]);
                assert(!pre.name_at_is(a, name));
                assert(post.entries@[b].name@ == name);
            }
        }
        layers::lemma_idx_determined(post, n, name);
        assert(vert_count(pre, name) == 0);
    }
}

/// Appending two draw-line calls to the same layer name preserves the
/// store's invariant — after the second call every triangle index still
/// references a vertex the layer holds — and the layer's vertex count is
/// the sum of the two calls' contributions, four vertices each or none
/// for a call that drew nothing.
pub proof fn lemma_draw_line_append_twice(
    s0: LayerStore,
    s1: LayerStore,
    s2: LayerStore,
    name: Seq<u8>,
    color1: [u32; 4],
    color2: [u32; 4],
)
    requires
        s0.wf(),
        layers::draw_line_applied(s0, s1, name, color1),
        layers::draw_line_applied(s1, s2, name, color2),
    ensures
        s1.wf(),
        s2.wf(),
        s2.has(name),
        vert_count(s1, name) == vert_count(s0, name) || vert_count(s1, name) == vert_count(
            s0,
            name,
        ) + 4,
        vert_count(s2, name) == vert_count(s1, name) || vert_count(s2, name) == vert_count(
            s1,
            name,
        ) + 4,
{
    lemma_draw_line_preserves_wf(s0, s1, name, color1);
    lemma_draw_line_preserves_wf(s1, s2, name, color2);
}

/// The camera mutation a fire-and-forget request applies, if any.
pub open spec fn cam_op_of(r: RequestModel) -> Option<CamOp> {
    match r {
        RequestModel::Pan { x, y } => Some(CamOp::Pan { x, y }),
        RequestModel::Zoom { scale } => Some(CamOp::Zoom { scale }),
        _ => None,
    }
}

/// Fire-and-forget ordering: two camera commands dispatched back to back
/// land in the camera's mutation record in arrival order, never
/// reordered, and leave the layer store untouched.
pub proof fn lemma_fire_and_forget_order<B: MathBackend>(
    s0: Stage<B>,
    s1: Stage<B>,
    s2: Stage<B>,
    r1: RequestModel,
    r2: RequestModel,
    o1: CamOp,
    o2: CamOp,
)
    requires
        stage::sub_applied(s0, s1, r1),
        stage::sub_applied(s1, s2, r2),
        cam_op_of(r1) == Some(o1),
        cam_op_of(r2) == Some(o2),
    ensures
        s2.camera.ops@ == s0.camera.ops@ + seq![o1, o2],
        s2.store == s0.store,
{
    assert(s2.camera.ops@ =~= s0.camera.ops@ + seq![o1, o2]);
}

} // verus!
