use vstd::prelude::*;

use crate::backend::MathBackend;

verus! {

/// One vertex of a layer: position, RGBA color and a texture coordinate,
/// each component the bit pattern of a single-precision value. The texture
/// coordinate is always zero for generated lines.
#[derive(Clone, Copy, Debug)]
pub struct Vertex {
    pub pos: [u32; 2],
    pub color: [u32; 4],
    pub uv: [u32; 2],
}

/// One triangle of a layer, as three indices into the vertex list.
#[derive(Clone, Copy, Debug)]
pub struct Face {
    pub idxs: [u32; 3],
}

/// The shape every quad built by [`build_line`] has: either nothing at all
/// (a degenerate segment), or exactly four vertices and two triangles whose
/// indices stay below four, winding `(0, 1, 2)` and `(2, 1, 3)`, every
/// vertex carrying the requested color and a zero texture coordinate.
pub open spec fn quad_shape(verts: Seq<Vertex>, faces: Seq<Face>, color: [u32; 4]) -> bool {
    ||| (verts.len() == 0 && faces.len() == 0)
    ||| {
        &&& verts.len() == 4
        &&& faces.len() == 2
        &&& faces[0].idxs[0] == 0
        &&& faces[0].idxs[1] == 1
        &&& faces[0].idxs[2] == 2
        &&& faces[1].idxs[0] == 2
        &&& faces[1].idxs[1] == 1
        &&& faces[1].idxs[2] == 3
        &&& forall|i: int| 0 <= i < 4 ==> #[trigger] verts[i].color == color
        &&& forall|i: int| 0 <= i < 4 ==> #[trigger] verts[i].uv[0] == 0 && verts[i].uv[1] == 0
    }
}

/// Assembles the quad for a segment whose half-thickness perpendicular
/// offset is already applied: exactly four vertices carrying the four
/// corner positions in order (first endpoint plus and minus the offset,
/// then the second endpoint likewise), each with the flat color and a
/// zero texture coordinate, and exactly the two counter-clockwise
/// triangles `(0, 1, 2)` and `(2, 1, 3)`.
pub fn assemble_quad(
    p0: [u32; 2],
    p1: [u32; 2],
    p2: [u32; 2],
    p3: [u32; 2],
    color: [u32; 4],
) -> (r: (Vec<Vertex>, Vec<Face>))
    ensures
        r.0@.len() == 4,
        r.1@.len() == 2,
        r.0@[0].pos[0] == p0[0] && r.0@[0].pos[1] == p0[1],
        r.0@[1].pos[0] == p1[0] && r.0@[1].pos[1] == p1[1],
        r.0@[2].pos[0] == p2[0] && r.0@[2].pos[1] == p2[1],
        r.0@[3].pos[0] == p3[0] && r.0@[3].pos[1] == p3[1],
        forall|i: int| 0 <= i < 4 ==> (#[trigger] r.0@[i]).color == color,
        forall|i: int| 0 <= i < 4 ==> (#[trigger] r.0@[i]).uv[0] == 0 && r.0@[i].uv[1] == 0,
        quad_shape(r.0@, r.1@, color),
{
    let uv: [u32; 2] = [0, 0];
    let mut verts: Vec<Vertex> = Vec::new();
    verts.push(Vertex { pos: p0, color, uv });
    verts.push(Vertex { pos: p1, color, uv });
    verts.push(Vertex { pos: p2, color, uv });
    verts.push(Vertex { pos: p3, color, uv });
    let mut faces: Vec<Face> = Vec::new();
    faces.push(Face { idxs: [0, 1, 2] });
    faces.push(Face { idxs: [2, 1, 3] });
    (verts, faces)
}

/// Turns a line segment with a thickness and a flat color into a quad:
/// four corner vertices, offset from the endpoints by the half-thickness
/// perpendicular, assembled by [`assemble_quad`], and two
/// counter-clockwise triangles. A degenerate segment (the backend reports
/// no perpendicular) produces empty sets: a silent no-op draw, not an
/// error.
pub fn build_line<B: MathBackend>(
    backend: &B,
    x1: u32,
    y1: u32,
    x2: u32,
    y2: u32,
    thickness: u32,
    color: [u32; 4],
) -> (r: (Vec<Vertex>, Vec<Face>))
    ensures
        quad_shape(r.0@, r.1@, color),
        r.0@.len() == 0 || r.0@.len() == 4,
        r.0@.len() == 0 <==> r.1@.len() == 0,
{
    match backend.perp_offset(x1, y1, x2, y2, thickness) {
        None => (Vec::new(), Vec::new()),
        Some((tx, ty)) => {
            let p0: [u32; 2] = [backend.fadd(x1, tx), backend.fadd(y1, ty)];
            let p1: [u32; 2] = [backend.fsub(x1, tx), backend.fsub(y1, ty)];
            let p2: [u32; 2] = [backend.fadd(x2, tx), backend.fadd(y2, ty)];
            let p3: [u32; 2] = [backend.fsub(x2, tx), backend.fsub(y2, ty)];
            assemble_quad(p0, p1, p2, p3, color)
        }
    }
}

} // verus!
