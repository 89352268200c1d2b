//! Path geometry and bounding boxes.
//!
//! Path geometry is a sequence of move/line/cubic segments in fixed-point
//! coordinates.  Bounding boxes are the hull of the anchor and control
//! points, which contains the exact shape (a cubic curve lies in the hull of
//! its control points).

use crate::fx::{spec_fx_add, spec_fx_mul};
use crate::transform::Transform;
use vstd::prelude::*;

verus! {

#[derive(Clone, Copy, PartialEq, Eq, Structural, Debug)]
pub enum Segment {
    MoveTo { x: i64, y: i64 },
    LineTo { x: i64, y: i64 },
    CubicTo { x1: i64, y1: i64, x2: i64, y2: i64, x: i64, y: i64 },
    Close,
}

/// An axis-aligned box, stored by its two corners with `x0 <= x1`, `y0 <= y1`
/// whenever it was built by `extend`.
#[derive(Clone, Copy, PartialEq, Eq, Structural, Debug)]
pub struct BBox {
    pub x0: i64,
    pub y0: i64,
    pub x1: i64,
    pub y1: i64,
}

pub open spec fn spec_min(a: i64, b: i64) -> i64 {
    if a <= b {
        a
    } else {
        b
    }
}

pub open spec fn spec_max(a: i64, b: i64) -> i64 {
    if a >= b {
        a
    } else {
        b
    }
}

/// Grow a (possibly absent) box to cover one more point.
pub open spec fn spec_extend(acc: Option<BBox>, x: i64, y: i64) -> Option<BBox> {
    match acc {
        None => Some(BBox { x0: x, y0: y, x1: x, y1: y }),
        Some(bb) => Some(
            BBox {
                x0: spec_min(bb.x0, x),
                y0: spec_min(bb.y0, y),
                x1: spec_max(bb.x1, x),
                y1: spec_max(bb.y1, y),
            },
        ),
    }
}

/// Cover the points of one segment.
pub open spec fn spec_extend_segment(acc: Option<BBox>, s: Segment) -> Option<BBox> {
    match s {
        Segment::MoveTo { x, y } => spec_extend(acc, x, y),
        Segment::LineTo { x, y } => spec_extend(acc, x, y),
        Segment::CubicTo { x1, y1, x2, y2, x, y } => spec_extend(
            spec_extend(spec_extend(acc, x1, y1), x2, y2),
            x,
            y,
        ),
        Segment::Close => acc,
    }
}

/// Cover the points of a whole segment sequence, mapped through a transform.
pub open spec fn spec_segments_bbox(acc: Option<BBox>, s: Seq<Segment>, t: Transform) -> Option<
    BBox,
>
    decreases s.len(),
{
    if s.len() == 0 {
        acc
    } else {
        spec_segments_bbox(spec_extend_segment(acc, spec_apply_segment(t, s[0])), s.skip(1), t)
    }
}

/// One segment with all of its points mapped through a transform.
pub open spec fn spec_apply_segment(t: Transform, s: Segment) -> Segment {
    match s {
        Segment::MoveTo { x, y } => Segment::MoveTo {
            x: t.spec_apply_x(x, y),
            y: t.spec_apply_y(x, y),
        },
        Segment::LineTo { x, y } => Segment::LineTo {
            x: t.spec_apply_x(x, y),
            y: t.spec_apply_y(x, y),
        },
        Segment::CubicTo { x1, y1, x2, y2, x, y } => Segment::CubicTo {
            x1: t.spec_apply_x(x1, y1),
            y1: t.spec_apply_y(x1, y1),
            x2: t.spec_apply_x(x2, y2),
            y2: t.spec_apply_y(x2, y2),
            x: t.spec_apply_x(x, y),
            y: t.spec_apply_y(x, y),
        },
        Segment::Close => Segment::Close,
    }
}

pub fn bbox_extend(acc: Option<BBox>, x: i64, y: i64) -> (r: Option<BBox>)
    ensures
        r == spec_extend(acc, x, y),
{
    match acc {
        None => Some(BBox { x0: x, y0: y, x1: x, y1: y }),
        Some(bb) => Some(
            BBox {
                x0: if bb.x0 <= x {
                    bb.x0
                } else {
                    x
                },
                y0: if bb.y0 <= y {
                    bb.y0
                } else {
                    y
                },
                x1: if bb.x1 >= x {
                    bb.x1
                } else {
                    x
                },
                y1: if bb.y1 >= y {
                    bb.y1
                } else {
                    y
                },
            },
        ),
    }
}

pub fn apply_segment(t: &Transform, s: &Segment) -> (r: Segment)
    ensures
        r == spec_apply_segment(*t, *s),
{
    match *s {
        Segment::MoveTo { x, y } => {
            let p = t.apply(x, y);
            Segment::MoveTo { x: p.0, y: p.1 }
        },
        Segment::LineTo { x, y } => {
            let p = t.apply(x, y);
            Segment::LineTo { x: p.0, y: p.1 }
        },
        Segment::CubicTo { x1, y1, x2, y2, x, y } => {
            let p1 = t.apply(x1, y1);
            let p2 = t.apply(x2, y2);
            let p = t.apply(x, y);
            Segment::CubicTo { x1: p1.0, y1: p1.1, x2: p2.0, y2: p2.1, x: p.0, y: p.1 }
        },
        Segment::Close => Segment::Close,
    }
}

/// Grow `acc` to cover every point of `segs`, each mapped through `t`.
pub fn segments_bbox(acc: Option<BBox>, segs: &Vec<Segment>, t: &Transform) -> (r: Option<BBox>)
    ensures
        r == spec_segments_bbox(acc, segs@, *t),
{
    let mut cur = acc;
    let mut i: usize = 0;
    proof {
        assert(segs@.skip(0) =~= segs@);
    }
    while i < segs.len()
        invariant
            i <= segs.len(),
            spec_segments_bbox(acc, segs@, *t) == spec_segments_bbox(cur, segs@.skip(i as int), *t),
        decreases segs.len() - i,
    {
        let s = apply_segment(t, &segs[i]);
        let next = match s {
            Segment::MoveTo { x, y } => bbox_extend(cur, x, y),
            Segment::LineTo { x, y } => bbox_extend(cur, x, y),
            Segment::CubicTo { x1, y1, x2, y2, x, y } => bbox_extend(
                bbox_extend(bbox_extend(cur, x1, y1), x2, y2),
                x,
                y,
            ),
            Segment::Close => cur,
        };
        proof {
            assert(segs@.skip(i as int)[0] == segs@[i as int]);
            assert(segs@.skip(i as int).skip(1) =~= segs@.skip(i as int + 1));
        }
        cur = next;
        i = i + 1;
    }
    proof {
        assert(segs@.skip(segs@.len() as int) =~= Seq::<Segment>::empty());
    }
    cur
}

/// Union of two optional boxes.
pub open spec fn spec_bbox_union(a: Option<BBox>, b: Option<BBox>) -> Option<BBox> {
    match b {
        None => a,
        Some(bb) => spec_extend(spec_extend(a, bb.x0, bb.y0), bb.x1, bb.y1),
    }
}

pub fn bbox_union(a: Option<BBox>, b: Option<BBox>) -> (r: Option<BBox>)
    ensures
        r == spec_bbox_union(a, b),
{
    match b {
        None => a,
        Some(bb) => bbox_extend(bbox_extend(a, bb.x0, bb.y0), bb.x1, bb.y1),
    }
}

/// The box covering the corners of an axis-aligned rectangle of size
/// `w` by `h` at the origin, mapped through `t`.
pub open spec fn spec_rect_bbox(t: Transform, w: i64, h: i64) -> Option<BBox> {
    spec_extend(
        spec_extend(
            spec_extend(
                spec_extend(None, t.spec_apply_x(0, 0), t.spec_apply_y(0, 0)),
                t.spec_apply_x(w, 0),
                t.spec_apply_y(w, 0),
            ),
            t.spec_apply_x(0, h),
            t.spec_apply_y(0, h),
        ),
        t.spec_apply_x(w, h),
        t.spec_apply_y(w, h),
    )
}

pub fn rect_bbox(t: &Transform, w: i64, h: i64) -> (r: Option<BBox>)
    ensures
        r == spec_rect_bbox(*t, w, h),
{
    let p00 = t.apply(0, 0);
    let p10 = t.apply(w, 0);
    let p01 = t.apply(0, h);
    let p11 = t.apply(w, h);
    bbox_extend(bbox_extend(bbox_extend(bbox_extend(None, p00.0, p00.1), p10.0, p10.1), p01.0, p01.1), p11.0, p11.1)
}

} // verus!
