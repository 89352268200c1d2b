//! The output model: document-writer events.
//!
//! A conversion produces a flat sequence of events.  Each indirect object is
//! one contiguous block: a `Begin…` event, the object's payload (content
//! operators for content streams, stops for shadings, glyphs for fonts),
//! its resource-dictionary entries, and a closing [`Event::End`].  Blocks do
//! not nest: a child object is always emitted complete before the block that
//! references it, and the page or root object comes last.  An unverified
//! writer turns each block into one indirect object of the target format.
//!
//! Every payload is a plain scalar; bulk data (image pixels) is referenced
//! by its index in the input tree rather than copied.

use crate::geom::BBox;
use crate::scene::{Color, FillRule};
use crate::transform::Transform;
use vstd::prelude::*;

verus! {

/// The two global ICC profiles, each written at most once per output.
#[derive(Clone, Copy, PartialEq, Eq, Structural, Debug)]
pub enum IccKind {
    Srgb,
    Gray,
}

/// The kind slot of a resource-dictionary entry.
#[derive(Clone, Copy, PartialEq, Eq, Structural, Debug)]
pub enum ResKind {
    XObject,
    Shading,
    Pattern,
    ExtGState,
    ColorSpace,
    Font,
}

/// A content-stream operator.  Coordinates are fixed-point; resource
/// references use the name slot given out by the enclosing scope.
#[derive(Clone, Copy, PartialEq, Eq, Structural, Debug)]
pub enum Op {
    Save,
    Restore,
    Concat(Transform),
    MoveTo { x: i64, y: i64 },
    LineTo { x: i64, y: i64 },
    CubicTo { x1: i64, y1: i64, x2: i64, y2: i64, x: i64, y: i64 },
    ClosePath,
    FillPath { rule: FillRule },
    StrokePath,
    FillAndStrokePath { rule: FillRule },
    /// Intersect the clip region with the current path, ending the path.
    ClipPath { rule: FillRule },
    /// Fill color in the ICC color space registered under `cs_name`.
    SetFillColor { cs_name: usize, color: Color },
    SetStrokeColor { cs_name: usize, color: Color },
    SetFillPattern { name: usize },
    SetStrokePattern { name: usize },
    SetExtGState { name: usize },
    SetLineWidth { width: i64 },
    DrawXObject { name: usize },
    BeginText,
    EndText,
    SetFont { name: usize, size: i64 },
    ShowGlyph { gid: u16, x: i64, y: i64 },
}

/// What a form XObject block stands for.
#[derive(Clone, Copy, PartialEq, Eq, Structural, Debug)]
pub enum XObjectKind {
    /// A plain grouping XObject.
    Plain,
    /// An isolated transparency group, for group opacity and masked content.
    Transparency,
    /// A luminosity soft-mask group, drawn against the gray ICC profile with
    /// the given identity.
    LuminosityMask { gray_icc: u64 },
    /// An alpha soft-mask group.
    AlphaMask,
}

/// The geometry of a shading.
#[derive(Clone, Copy, PartialEq, Eq, Structural, Debug)]
pub enum ShadingKind {
    Linear { x1: i64, y1: i64, x2: i64, y2: i64 },
    Radial { cx: i64, cy: i64, r: i64 },
}

#[derive(Clone, Copy, PartialEq, Eq, Structural, Debug)]
pub enum Event {
    /// Start of a form XObject; operators, resources and `End` follow.
    BeginXObject { id: u64, kind: XObjectKind, bbox: BBox },
    /// Start of the single page of a standalone document; operators,
    /// resources and `End` follow.  Always the last block of the output.
    BeginPage { width: i64, height: i64 },
    /// Start of a tiling pattern; operators, resources and `End` follow.
    BeginPattern { id: u64, width: i64, height: i64, matrix: Transform },
    /// Start of a shading pattern; its stops and `End` follow.  `has_alpha`
    /// reports whether any stop carries an opacity below one, in which case
    /// the writer must derive an additional alpha channel (the base format
    /// has no per-stop alpha for vector paint).
    BeginShading { id: u64, kind: ShadingKind, matrix: Transform, icc: u64, has_alpha: bool },
    GradientStop { offset: i64, color: Color, opacity: i64 },
    /// A complete image XObject in direct-mapped device color; the samples
    /// live at `image` in the input tree's image arena.
    ImageObject { id: u64, image: usize },
    /// A complete image XObject standing for a rasterized filtered subtree:
    /// the buffer to produce has exactly the given pixel dimensions.
    FilterImage { id: u64, width_px: u64, height_px: u64 },
    /// A complete graphics-state object setting constant alpha.
    AlphaState { id: u64, alpha: i64 },
    /// A complete graphics-state object setting constant alpha and a soft
    /// mask backed by the group object `mask`.
    SoftMaskState { id: u64, alpha: i64, mask: u64 },
    /// A complete ICC profile stream.
    IccProfile { id: u64, kind: IccKind },
    /// Start of a subset font object; the glyphs it must cover and `End`
    /// follow.
    BeginFont { id: u64, font: usize },
    FontGlyph { gid: u16 },
    /// One resource-dictionary entry of the block being closed.
    Resource { kind: ResKind, name: usize, id: u64 },
    Op(Op),
    /// End of the innermost open block.
    End,
}

/// Whether an event is an ICC profile object of the given kind (the global
/// resources that must be written at most once per output).
pub open spec fn is_icc(e: Event, k: IccKind) -> bool {
    match e {
        Event::IccProfile { id, kind } => kind == k,
        _ => false,
    }
}

/// How many ICC profile objects of kind `k` a sequence of events holds.
pub open spec fn icc_count(s: Seq<Event>, k: IccKind) -> int
    decreases s.len(),
{
    if s.len() == 0 {
        0
    } else {
        icc_count(s.drop_last(), k) + if is_icc(s.last(), k) {
            1int
        } else {
            0int
        }
    }
}

/// Appending event sequences adds their profile counts.
pub proof fn lemma_icc_count_append(a: Seq<Event>, b: Seq<Event>, k: IccKind)
    ensures
        icc_count(a + b, k) == icc_count(a, k) + icc_count(b, k),
    decreases b.len(),
{
    if b.len() == 0 {
        assert(a + b =~= a);
    } else {
        lemma_icc_count_append(a, b.drop_last(), k);
        assert((a + b).drop_last() =~= a + b.drop_last());
        assert((a + b).last() == b.last());
    }
}

/// A sequence without profile events counts zero.
pub proof fn lemma_icc_count_zero(s: Seq<Event>, k: IccKind)
    requires
        forall|j: int| 0 <= j < s.len() ==> !(#[trigger] s[j] is IccProfile),
    ensures
        icc_count(s, k) == 0,
    decreases s.len(),
{
    if s.len() > 0 {
        lemma_icc_count_zero(s.drop_last(), k);
    }
}

} // verus!
