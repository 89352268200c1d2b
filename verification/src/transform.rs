//! Affine transforms over fixed-point scalars.
//!
//! A transform maps a point as `x' = a*x + c*y + e`, `y' = b*x + d*y + f`.
//! Composition and application use the saturating fixed-point operations of
//! [`crate::fx`], so they are total; the spec functions state the computed
//! matrix exactly, entry by entry.

use crate::fx::{FX_ONE, spec_fx_add, spec_fx_mul, fx_add, fx_mul};
use vstd::prelude::*;

verus! {

#[derive(Clone, Copy, PartialEq, Eq, Structural, Debug)]
pub struct Transform {
    pub a: i64,
    pub b: i64,
    pub c: i64,
    pub d: i64,
    pub e: i64,
    pub f: i64,
}

impl Transform {
    pub open spec fn spec_identity() -> Transform {
        Transform { a: FX_ONE, b: 0, c: 0, d: FX_ONE, e: 0, f: 0 }
    }

    pub fn identity() -> (r: Transform)
        ensures
            r == Self::spec_identity(),
    {
        Transform { a: FX_ONE, b: 0, c: 0, d: FX_ONE, e: 0, f: 0 }
    }

    pub open spec fn spec_translate(tx: i64, ty: i64) -> Transform {
        Transform { a: FX_ONE, b: 0, c: 0, d: FX_ONE, e: tx, f: ty }
    }

    pub fn translate(tx: i64, ty: i64) -> (r: Transform)
        ensures
            r == Self::spec_translate(tx, ty),
    {
        Transform { a: FX_ONE, b: 0, c: 0, d: FX_ONE, e: tx, f: ty }
    }

    pub open spec fn spec_scale(sx: i64, sy: i64) -> Transform {
        Transform { a: sx, b: 0, c: 0, d: sy, e: 0, f: 0 }
    }

    pub fn scale(sx: i64, sy: i64) -> (r: Transform)
        ensures
            r == Self::spec_scale(sx, sy),
    {
        Transform { a: sx, b: 0, c: 0, d: sy, e: 0, f: 0 }
    }

    /// The composition applying `inner` first and `self` afterwards.
    pub open spec fn spec_concat(self, inner: Transform) -> Transform {
        Transform {
            a: spec_fx_add(spec_fx_mul(self.a, inner.a), spec_fx_mul(self.c, inner.b)),
            b: spec_fx_add(spec_fx_mul(self.b, inner.a), spec_fx_mul(self.d, inner.b)),
            c: spec_fx_add(spec_fx_mul(self.a, inner.c), spec_fx_mul(self.c, inner.d)),
            d: spec_fx_add(spec_fx_mul(self.b, inner.c), spec_fx_mul(self.d, inner.d)),
            e: spec_fx_add(
                spec_fx_add(spec_fx_mul(self.a, inner.e), spec_fx_mul(self.c, inner.f)),
                self.e,
            ),
            f: spec_fx_add(
                spec_fx_add(spec_fx_mul(self.b, inner.e), spec_fx_mul(self.d, inner.f)),
                self.f,
            ),
        }
    }

    pub fn concat(&self, inner: &Transform) -> (r: Transform)
        ensures
            r == self.spec_concat(*inner),
    {
        Transform {
            a: fx_add(fx_mul(self.a, inner.a), fx_mul(self.c, inner.b)),
            b: fx_add(fx_mul(self.b, inner.a), fx_mul(self.d, inner.b)),
            c: fx_add(fx_mul(self.a, inner.c), fx_mul(self.c, inner.d)),
            d: fx_add(fx_mul(self.b, inner.c), fx_mul(self.d, inner.d)),
            e: fx_add(fx_add(fx_mul(self.a, inner.e), fx_mul(self.c, inner.f)), self.e),
            f: fx_add(fx_add(fx_mul(self.b, inner.e), fx_mul(self.d, inner.f)), self.f),
        }
    }

    pub open spec fn spec_apply_x(self, x: i64, y: i64) -> i64 {
        spec_fx_add(spec_fx_add(spec_fx_mul(self.a, x), spec_fx_mul(self.c, y)), self.e)
    }

    pub open spec fn spec_apply_y(self, x: i64, y: i64) -> i64 {
        spec_fx_add(spec_fx_add(spec_fx_mul(self.b, x), spec_fx_mul(self.d, y)), self.f)
    }

    pub fn apply(&self, x: i64, y: i64) -> (r: (i64, i64))
        ensures
            r.0 == self.spec_apply_x(x, y),
            r.1 == self.spec_apply_y(x, y),
    {
        (
            fx_add(fx_add(fx_mul(self.a, x), fx_mul(self.c, y)), self.e),
            fx_add(fx_add(fx_mul(self.b, x), fx_mul(self.d, y)), self.f),
        )
    }
}

} // verus!
