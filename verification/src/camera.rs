use vstd::prelude::*;

use crate::backend;
use crate::backend::MathBackend;

verus! {

/// One camera mutation, as it arrived off the wire.
#[derive(Clone, Copy, Debug, PartialEq, Eq, Structural)]
pub enum CamOp {
    Pan { x: u32, y: u32 },
    Zoom { scale: u32 },
}

/// The camera: a single composable transform, the product of the
/// translations and scales that pan and zoom commands applied, combined
/// at read time with a viewport-normalization scale so world-space size
/// is independent of the window's pixel dimensions.
pub struct Camera {
    /// The composed transform, as bit patterns.
    pub proj: [u32; 16],
    /// The mutations applied so far, in application order: the
    /// specification-level record that the ordering contracts speak of.
    pub ops: Ghost<Seq<CamOp>>,
}

impl Camera {
    /// A fresh camera: identity transform, no mutations applied.
    pub fn new() -> (c: Camera)
        ensures
            c.proj@ == backend::spec_identity(),
            c.ops@ == Seq::<CamOp>::empty(),
    {
        Camera { proj: backend::identity(), ops: Ghost(Seq::empty()) }
    }

    /// Right-multiplies the camera by a translation of `(x, y)`.
    pub fn pan<B: MathBackend>(&mut self, math: &B, x: u32, y: u32)
        ensures
            final(self).ops@ == old(self).ops@.push(CamOp::Pan { x, y }),
    {
        let t: [u32; 16] = backend::translation(x, y);
        self.proj = math.mat_mul(&self.proj, &t);
        self.ops = Ghost(self.ops@.push(CamOp::Pan { x, y }));
    }

    /// Right-multiplies the camera by a uniform scale on X and Y (Z
    /// unaffected).
    pub fn zoom<B: MathBackend>(&mut self, math: &B, scale: u32)
        ensures
            final(self).ops@ == old(self).ops@.push(CamOp::Zoom { scale }),
    {
        let s: [u32; 16] = backend::scale(scale, scale);
        self.proj = math.mat_mul(&self.proj, &s);
        self.ops = Ghost(self.ops@.push(CamOp::Zoom { scale }));
    }

    /// The effective projection for the given viewport: the camera
    /// transform times a scale of the fixed world-unit constant over each
    /// viewport dimension, so content keeps constant apparent size. The
    /// numeric result is the backend's; this reads the camera without
    /// changing it.
    pub fn calc_proj_matrix<B: MathBackend>(&self, math: &B, screen_w: u32, screen_h: u32) -> [u32;
        16] {
        let kw: u32 = math.fdiv(backend::WORLD_UNIT_BITS, screen_w);
        let kh: u32 = math.fdiv(backend::WORLD_UNIT_BITS, screen_h);
        let s: [u32; 16] = backend::scale(kw, kh);
        math.mat_mul(&self.proj, &s)
    }

    /// Maps normalized screen coordinates in `[0, 1]` (origin top-left)
    /// to world coordinates: to clip space by `x' = 2x - 1`,
    /// `y' = 1 - 2y`, then through the inverse of the effective
    /// projection. The inverse is recomputed on every call, never cached
    /// across camera mutations.
    pub fn screen_to_world<B: MathBackend>(
        &self,
        math: &B,
        x: u32,
        y: u32,
        screen_w: u32,
        screen_h: u32,
    ) -> (r: (u32, u32)) {
        let cx: u32 = math.fsub(math.fmul(backend::TWO_BITS, x), backend::ONE_BITS);
        let cy: u32 = math.fsub(backend::ONE_BITS, math.fmul(backend::TWO_BITS, y));
        let m: [u32; 16] = self.calc_proj_matrix(math, screen_w, screen_h);
        let inv: [u32; 16] = math.mat_inverse(&m);
        math.transform_point(&inv, cx, cy)
    }
}

} // verus!
