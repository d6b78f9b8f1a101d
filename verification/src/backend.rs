use vstd::prelude::*;

verus! {

/// Arithmetic on IEEE-754 single-precision bit patterns.
///
/// The engine stores every scalar as the raw `u32` bit pattern of a
/// single-precision value and never interprets it numerically; the host
/// application (or a test harness) implements this trait and decides how
/// patterns combine. The engine's contracts therefore speak only of how
/// scalars and matrices move through the state, never of their numeric
/// values, which is exactly the part that floating point puts beyond proof.
///
/// Matrices are 4x4, column-major, sixteen bit patterns.
pub trait MathBackend {
    /// The half-thickness perpendicular offset of the segment from
    /// `(x1, y1)` to `(x2, y2)`: a vector normal to the segment whose length
    /// is half of `thickness`. Returns `None` when the segment is degenerate
    /// (zero length, or a thickness that drives the normalizing scale
    /// below machine epsilon).
    fn perp_offset(&self, x1: u32, y1: u32, x2: u32, y2: u32, thickness: u32) -> Option<(u32, u32)>;

    /// Sum of two scalars.
    fn fadd(&self, a: u32, b: u32) -> u32;

    /// Difference `a - b` of two scalars.
    fn fsub(&self, a: u32, b: u32) -> u32;

    /// Product of two scalars.
    fn fmul(&self, a: u32, b: u32) -> u32;

    /// Quotient `a / b` of two scalars.
    fn fdiv(&self, a: u32, b: u32) -> u32;

    /// Matrix product `a * b`.
    fn mat_mul(&self, a: &[u32; 16], b: &[u32; 16]) -> [u32; 16];

    /// Inverse of `m`.
    fn mat_inverse(&self, m: &[u32; 16]) -> [u32; 16];

    /// X and Y of `m * (x, y, 0, 1)`.
    fn transform_point(&self, m: &[u32; 16], x: u32, y: u32) -> (u32, u32);
}

/// Bit pattern of `1.0f32`.
pub const ONE_BITS: u32 = 0x3F80_0000;

/// Bit pattern of `2.0f32`.
pub const TWO_BITS: u32 = 0x4000_0000;

/// Bit pattern of `2500.0f32`, the fixed world-unit constant that keeps
/// world-space content at a constant apparent size whatever the window's
/// pixel dimensions are.
pub const WORLD_UNIT_BITS: u32 = 0x451C_4000;

/// The identity matrix, as bit patterns.
pub open spec fn spec_identity() -> Seq<u32> {
    seq![
        ONE_BITS, 0u32, 0u32, 0u32,
        0u32, ONE_BITS, 0u32, 0u32,
        0u32, 0u32, ONE_BITS, 0u32,
        0u32, 0u32, 0u32, ONE_BITS,
    ]
}

/// A pure translation by `(x, y, 0)`, as bit patterns (column-major: the
/// translation occupies the fourth column).
pub open spec fn spec_translation(x: u32, y: u32) -> Seq<u32> {
    seq![
        ONE_BITS, 0u32, 0u32, 0u32,
        0u32, ONE_BITS, 0u32, 0u32,
        0u32, 0u32, ONE_BITS, 0u32,
        x, y, 0u32, ONE_BITS,
    ]
}

/// A scale by `(sx, sy, 1)`, as bit patterns.
pub open spec fn spec_scale(sx: u32, sy: u32) -> Seq<u32> {
    seq![
        sx, 0u32, 0u32, 0u32,
        0u32, sy, 0u32, 0u32,
        0u32, 0u32, ONE_BITS, 0u32,
        0u32, 0u32, 0u32, ONE_BITS,
    ]
}

/// Builds the identity matrix.
pub fn identity() -> (m: [u32; 16])
    ensures
        m@ == spec_identity(),
{
    let m: [u32; 16] = [
        ONE_BITS, 0, 0, 0,
        0, ONE_BITS, 0, 0,
        0, 0, ONE_BITS, 0,
        0, 0, 0, ONE_BITS,
    ];
    proof {
        assert(m@ =~= spec_identity());
    }
    m
}

/// Builds a pure translation by `(x, y, 0)`.
pub fn translation(x: u32, y: u32) -> (m: [u32; 16])
    ensures
        m@ == spec_translation(x, y),
{
    let m: [u32; 16] = [
        ONE_BITS, 0, 0, 0,
        0, ONE_BITS, 0, 0,
        0, 0, ONE_BITS, 0,
        x, y, 0, ONE_BITS,
    ];
    proof {
        assert(m@ =~= spec_translation(x, y));
    }
    m
}

/// Builds a scale by `(sx, sy, 1)`.
pub fn scale(sx: u32, sy: u32) -> (m: [u32; 16])
    ensures
        m@ == spec_scale(sx, sy),
{
    let m: [u32; 16] = [
        sx, 0, 0, 0,
        0, sy, 0, 0,
        0, 0, ONE_BITS, 0,
        0, 0, 0, ONE_BITS,
    ];
    proof {
        assert(m@ =~= spec_scale(sx, sy));
    }
    m
}

} // verus!
