//! The scene tree: the read-only input of the converter.
//!
//! Nodes live in arenas and refer to each other by index, so shared
//! definitions (paint servers, clip paths, masks) carry no ownership cycles.
//! A group's children are indices into the same arena that are strictly
//! greater than the group's own index, and the content of the definition at
//! index `k` refers only to definitions with index below `k`; together these
//! orderings make every tree acyclic and give each recursive walk an obvious
//! termination measure.
//!
//! [`wf_tree`] states the well-formedness invariant, and
//! [`Tree::is_valid`] decides it executably, so a caller can hand over any
//! value and let the converter reject a malformed one with a typed error.

use crate::fx::FX_ONE;
use crate::geom::Segment;
use crate::transform::Transform;
use vstd::prelude::*;

verus! {

#[derive(Clone, Copy, PartialEq, Eq, Structural, Debug)]
pub struct Color {
    pub r: u8,
    pub g: u8,
    pub b: u8,
}

/// One gradient stop: offset along the gradient axis, color, and opacity,
/// offset and opacity in fixed-point `[0, FX_ONE]`.
#[derive(Clone, Copy, PartialEq, Eq, Structural, Debug)]
pub struct Stop {
    pub offset: i64,
    pub color: Color,
    pub opacity: i64,
}

/// The coordinate space a gradient's own geometry is given in.
#[derive(Clone, Copy, PartialEq, Eq, Structural, Debug)]
pub enum GradientUnits {
    UserSpace,
    ObjectBoundingBox,
}

/// Spread behavior outside the gradient's range.  Only `Pad` has a direct
/// equivalent in the output format; the others are recorded and rendered as
/// `Pad` (a documented approximation, not an error).
#[derive(Clone, Copy, PartialEq, Eq, Structural, Debug)]
pub enum SpreadMethod {
    Pad,
    Reflect,
    Repeat,
}

pub struct LinearGradient {
    pub x1: i64,
    pub y1: i64,
    pub x2: i64,
    pub y2: i64,
    pub stops: Vec<Stop>,
    pub units: GradientUnits,
    pub transform: Transform,
    pub spread: SpreadMethod,
}

pub struct RadialGradient {
    pub cx: i64,
    pub cy: i64,
    pub r: i64,
    pub stops: Vec<Stop>,
    pub units: GradientUnits,
    pub transform: Transform,
    pub spread: SpreadMethod,
}

/// A paint server.  `Pattern` holds an index into the definition arena.
pub enum Paint {
    Solid(Color),
    Linear(LinearGradient),
    Radial(RadialGradient),
    Pattern(usize),
}

#[derive(Clone, Copy, PartialEq, Eq, Structural, Debug)]
pub enum FillRule {
    NonZero,
    EvenOdd,
}

/// A fill: an index into the paint arena, an opacity, and a fill rule.
#[derive(Clone, Copy, PartialEq, Eq, Structural, Debug)]
pub struct Fill {
    pub paint: usize,
    pub opacity: i64,
    pub rule: FillRule,
}

/// A stroke: an index into the paint arena, an opacity, and a line width.
#[derive(Clone, Copy, PartialEq, Eq, Structural, Debug)]
pub struct Stroke {
    pub paint: usize,
    pub opacity: i64,
    pub width: i64,
}

/// One positioned glyph of a text run.
#[derive(Clone, Copy, PartialEq, Eq, Structural, Debug)]
pub struct Glyph {
    pub gid: u16,
    pub x: i64,
    pub y: i64,
}

pub struct Group {
    pub transform: Transform,
    /// Group opacity in `[0, FX_ONE]`; `None` means the attribute is absent.
    pub opacity: Option<i64>,
    /// Index of a clip-path definition.
    pub clip: Option<usize>,
    /// Index of a mask definition.
    pub mask: Option<usize>,
    /// Whether the group carries a filter with no vector equivalent; such a
    /// subtree is rasterized instead of walked.
    pub filter: bool,
    /// Child indices in the owning arena, each greater than this node's own
    /// index.
    pub children: Vec<usize>,
}

pub struct PathNode {
    pub transform: Transform,
    pub fill: Option<Fill>,
    pub stroke: Option<Stroke>,
    pub segments: Vec<Segment>,
}

pub struct ImageNode {
    pub transform: Transform,
    /// Index into the image arena.
    pub image: usize,
    /// Placement size in user units (fixed-point).
    pub width: i64,
    pub height: i64,
}

pub struct TextNode {
    pub transform: Transform,
    /// Index into the font arena.
    pub font: usize,
    /// Font size in user units (fixed-point).
    pub size: i64,
    pub glyphs: Vec<Glyph>,
    pub fill: Color,
    /// Outlined replacement content (child indices in the owning arena), used
    /// when text is not embedded or the font cannot be read.
    pub fallback: Vec<usize>,
}

pub enum Node {
    Group(Group),
    Path(PathNode),
    Image(ImageNode),
    Text(TextNode),
}

#[derive(Clone, Copy, PartialEq, Eq, Structural, Debug)]
pub enum MaskKind {
    Luminosity,
    Alpha,
}

/// A pattern's tile: its own node arena, the tile size, and the
/// pattern-space matrix.
pub struct PatternDef {
    pub nodes: Vec<Node>,
    pub roots: Vec<usize>,
    pub transform: Transform,
    pub width: i64,
    pub height: i64,
}

/// A mask: its own node arena and the kind of mask derived from it.
pub struct MaskDef {
    pub nodes: Vec<Node>,
    pub roots: Vec<usize>,
    pub kind: MaskKind,
}

/// A clip path: one geometry, and optionally a further clip it is itself
/// clipped by (the chain is flattened by intersection when emitted).
pub struct ClipDef {
    pub transform: Transform,
    pub segments: Vec<Segment>,
    pub rule: FillRule,
    pub clip: Option<usize>,
}

pub enum Def {
    Pattern(PatternDef),
    Mask(MaskDef),
    Clip(ClipDef),
}

#[derive(Clone, Copy, PartialEq, Eq, Structural, Debug)]
pub enum ImageFormat {
    /// Raw 8-bit RGB samples, row-major.
    Rgb8,
    /// Raw 8-bit RGBA samples, row-major.
    Rgba8,
    /// An already-encoded JPEG stream, embeddable as-is.
    Jpeg,
    /// Anything the converter does not recognize.
    Unsupported,
}

pub struct ImageInfo {
    pub width_px: u64,
    pub height_px: u64,
    pub format: ImageFormat,
    pub data: Vec<u8>,
}

/// What the font collaborator can do with one font; consulted for the
/// per-node outline fallback and the final subsetting step.
#[derive(Clone, Copy, PartialEq, Eq, Structural, Debug)]
pub struct FontInfo {
    pub readable: bool,
    pub subsettable: bool,
}

/// The whole scene: an intrinsic size, the main node arena with its root
/// list, and the shared arenas.
pub struct Tree {
    pub width: i64,
    pub height: i64,
    pub nodes: Vec<Node>,
    pub roots: Vec<usize>,
    pub defs: Vec<Def>,
    pub paints: Vec<Paint>,
    pub images: Vec<ImageInfo>,
    pub fonts: Vec<FontInfo>,
}

/// A paint reference is in range, and a pattern reference stays below the
/// definition bound of the content it occurs in.
pub open spec fn paint_ref_ok(p: int, paints: Seq<Paint>, def_bound: int, defs: Seq<Def>) -> bool {
    &&& 0 <= p < paints.len()
    &&& match paints[p] {
        Paint::Pattern(d) => d < def_bound && defs[d as int] is Pattern,
        _ => true,
    }
}

pub open spec fn clip_ref_ok(c: int, def_bound: int, defs: Seq<Def>) -> bool {
    0 <= c < def_bound && defs[c] is Clip
}

pub open spec fn mask_ref_ok(m: int, def_bound: int, defs: Seq<Def>) -> bool {
    0 <= m < def_bound && defs[m] is Mask
}

pub open spec fn opacity_ok(o: i64) -> bool {
    0 <= o <= FX_ONE
}

pub open spec fn wf_node(
    n: Node,
    i: int,
    len: int,
    def_bound: int,
    defs: Seq<Def>,
    paints: Seq<Paint>,
    fonts: int,
    images: int,
) -> bool {
    match n {
        Node::Group(g) => {
            &&& (forall|j: int|
                0 <= j < g.children@.len() ==> i < (#[trigger] g.children@[j]) as int
                    && (g.children@[j] as int) < len)
            &&& match g.clip {
                Some(c) => clip_ref_ok(c as int, def_bound, defs),
                None => true,
            }
            &&& match g.mask {
                Some(m) => mask_ref_ok(m as int, def_bound, defs),
                None => true,
            }
            &&& match g.opacity {
                Some(o) => opacity_ok(o),
                None => true,
            }
        },
        Node::Path(p) => {
            &&& match p.fill {
                Some(f) => paint_ref_ok(f.paint as int, paints, def_bound, defs) && opacity_ok(
                    f.opacity,
                ),
                None => true,
            }
            &&& match p.stroke {
                Some(s) => paint_ref_ok(s.paint as int, paints, def_bound, defs) && opacity_ok(
                    s.opacity,
                ),
                None => true,
            }
        },
        Node::Image(im) => im.image < images,
        Node::Text(t) => {
            &&& t.font < fonts
            &&& (forall|j: int|
                0 <= j < t.fallback@.len() ==> i < (#[trigger] t.fallback@[j]) as int
                    && (t.fallback@[j] as int) < len)
        },
    }
}

/// Every node of an arena is well formed at its own index.
pub open spec fn wf_arena(
    nodes: Seq<Node>,
    def_bound: int,
    defs: Seq<Def>,
    paints: Seq<Paint>,
    fonts: int,
    images: int,
) -> bool {
    forall|i: int|
        0 <= i < nodes.len() ==> wf_node(
            #[trigger] nodes[i],
            i,
            nodes.len() as int,
            def_bound,
            defs,
            paints,
            fonts,
            images,
        )
}

pub open spec fn wf_roots(roots: Seq<usize>, len: int) -> bool {
    forall|j: int| 0 <= j < roots.len() ==> (#[trigger] roots[j]) < len
}

/// Gradient stops: offsets non-decreasing, offsets and opacities in range.
pub open spec fn wf_stops(stops: Seq<Stop>) -> bool {
    &&& (forall|i: int|
        0 <= i < stops.len() ==> opacity_ok(#[trigger] stops[i].offset) && opacity_ok(
            stops[i].opacity,
        ))
    &&& (forall|i: int|
        0 <= i < stops.len() - 1 ==> #[trigger] stops[i].offset <= stops[i + 1].offset)
}

pub open spec fn wf_paint(p: Paint) -> bool {
    match p {
        Paint::Solid(_) => true,
        Paint::Linear(g) => wf_stops(g.stops@),
        Paint::Radial(g) => wf_stops(g.stops@),
        Paint::Pattern(_) => true,
    }
}

/// The definition at index `k`: its content refers only to definitions below
/// `k`.
pub open spec fn wf_def(
    d: Def,
    k: int,
    defs: Seq<Def>,
    paints: Seq<Paint>,
    fonts: int,
    images: int,
) -> bool {
    match d {
        Def::Pattern(p) => {
            &&& wf_arena(p.nodes@, k, defs, paints, fonts, images)
            &&& wf_roots(p.roots@, p.nodes@.len() as int)
        },
        Def::Mask(m) => {
            &&& wf_arena(m.nodes@, k, defs, paints, fonts, images)
            &&& wf_roots(m.roots@, m.nodes@.len() as int)
        },
        Def::Clip(c) => match c.clip {
            Some(cc) => clip_ref_ok(cc as int, k, defs),
            None => true,
        },
    }
}

/// Well-formedness of a whole tree: positive intrinsic size, every index in
/// range, definition content ordered below its own index, gradient stops
/// sorted and in range.
pub open spec fn wf_tree(t: Tree) -> bool {
    &&& 0 < t.width
    &&& 0 < t.height
    &&& wf_arena(
        t.nodes@,
        t.defs@.len() as int,
        t.defs@,
        t.paints@,
        t.fonts@.len() as int,
        t.images@.len() as int,
    )
    &&& wf_roots(t.roots@, t.nodes@.len() as int)
    &&& (forall|k: int|
        0 <= k < t.defs@.len() ==> wf_def(
            #[trigger] t.defs@[k],
            k,
            t.defs@,
            t.paints@,
            t.fonts@.len() as int,
            t.images@.len() as int,
        ))
    &&& (forall|p: int| 0 <= p < t.paints@.len() ==> wf_paint(#[trigger] t.paints@[p]))
}

fn check_opacity(o: i64) -> (b: bool)
    ensures
        b == opacity_ok(o),
{
    0 <= o && o <= FX_ONE
}

fn check_paint_ref(p: usize, paints: &Vec<Paint>, def_bound: usize, defs: &Vec<Def>) -> (b: bool)
    requires
        def_bound <= defs@.len(),
    ensures
        b == paint_ref_ok(p as int, paints@, def_bound as int, defs@),
{
    if p >= paints.len() {
        return false;
    }
    match &paints[p] {
        Paint::Pattern(d) => *d < def_bound && matches!(&defs[*d], Def::Pattern(_)),
        _ => true,
    }
}

fn check_children(children: &Vec<usize>, i: usize, len: usize) -> (b: bool)
    ensures
        b == forall|j: int|
            0 <= j < children@.len() ==> i < (#[trigger] children@[j]) as int
                && (children@[j] as int) < len,
{
    let mut j: usize = 0;
    while j < children.len()
        invariant
            j <= children.len(),
            forall|jj: int|
                0 <= jj < j ==> i < (#[trigger] children@[jj]) as int
                    && (children@[jj] as int) < len,
        decreases children.len() - j,
    {
        let c = children[j];
        if !(i < c && c < len) {
            return false;
        }
        j = j + 1;
    }
    true
}

fn check_node(
    n: &Node,
    i: usize,
    len: usize,
    def_bound: usize,
    defs: &Vec<Def>,
    paints: &Vec<Paint>,
    fonts: usize,
    images: usize,
) -> (b: bool)
    requires
        def_bound <= defs@.len(),
    ensures
        b == wf_node(*n, i as int, len as int, def_bound as int, defs@, paints@, fonts as int,
            images as int),
{
    match n {
        Node::Group(g) => {
            let children_ok = check_children(&g.children, i, len);
            let clip_ok = match g.clip {
                Some(c) => c < def_bound && matches!(&defs[c], Def::Clip(_)),
                None => true,
            };
            let mask_ok = match g.mask {
                Some(m) => m < def_bound && matches!(&defs[m], Def::Mask(_)),
                None => true,
            };
            let op_ok = match g.opacity {
                Some(o) => check_opacity(o),
                None => true,
            };
            children_ok && clip_ok && mask_ok && op_ok
        },
        Node::Path(p) => {
            let fill_ok = match &p.fill {
                Some(f) => check_paint_ref(f.paint, paints, def_bound, defs) && check_opacity(
                    f.opacity,
                ),
                None => true,
            };
            let stroke_ok = match &p.stroke {
                Some(s) => check_paint_ref(s.paint, paints, def_bound, defs) && check_opacity(
                    s.opacity,
                ),
                None => true,
            };
            fill_ok && stroke_ok
        },
        Node::Image(im) => im.image < images,
        Node::Text(t) => t.font < fonts && check_children(&t.fallback, i, len),
    }
}

fn check_arena(
    nodes: &Vec<Node>,
    def_bound: usize,
    defs: &Vec<Def>,
    paints: &Vec<Paint>,
    fonts: usize,
    images: usize,
) -> (b: bool)
    requires
        def_bound <= defs@.len(),
    ensures
        b == wf_arena(nodes@, def_bound as int, defs@, paints@, fonts as int, images as int),
{
    let mut i: usize = 0;
    while i < nodes.len()
        invariant
            def_bound <= defs@.len(),
            i <= nodes.len(),
            forall|ii: int|
                0 <= ii < i ==> wf_node(
                    #[trigger] nodes@[ii],
                    ii,
                    nodes@.len() as int,
                    def_bound as int,
                    defs@,
                    paints@,
                    fonts as int,
                    images as int,
                ),
        decreases nodes.len() - i,
    {
        if !check_node(&nodes[i], i, nodes.len(), def_bound, defs, paints, fonts, images) {
            return false;
        }
        i = i + 1;
    }
    true
}

fn check_roots(roots: &Vec<usize>, len: usize) -> (b: bool)
    ensures
        b == wf_roots(roots@, len as int),
{
    let mut j: usize = 0;
    while j < roots.len()
        invariant
            j <= roots.len(),
            forall|jj: int| 0 <= jj < j ==> (#[trigger] roots@[jj]) < len,
        decreases roots.len() - j,
    {
        if roots[j] >= len {
            return false;
        }
        j = j + 1;
    }
    true
}

fn check_stops(stops: &Vec<Stop>) -> (b: bool)
    ensures
        b == wf_stops(stops@),
{
    let mut i: usize = 0;
    while i < stops.len()
        invariant
            i <= stops.len(),
            forall|ii: int| 0 <= ii < i ==> opacity_ok(#[trigger] stops@[ii].offset),
            forall|ii: int| 0 <= ii < i ==> opacity_ok(#[trigger] stops@[ii].opacity),
        decreases stops.len() - i,
    {
        let s = stops[i];
        if !(check_opacity(s.offset) && check_opacity(s.opacity)) {
            return false;
        }
        proof {
            assert(s == stops@[i as int]);
            assert(opacity_ok(stops@[i as int].offset));
            assert(opacity_ok(stops@[i as int].opacity));
        }
        i = i + 1;
    }
    let mut j: usize = 0;
    while j + 1 < stops.len()
        invariant
            stops.len() > 0 ==> j <= stops.len() - 1,
            stops.len() == 0 ==> j == 0,
            forall|jj: int| 0 <= jj < j ==> #[trigger] stops@[jj].offset <= stops@[jj + 1].offset,
        decreases stops.len() - j,
    {
        if stops[j].offset > stops[j + 1].offset {
            return false;
        }
        j = j + 1;
    }
    true
}

fn check_paints(paints: &Vec<Paint>) -> (b: bool)
    ensures
        b == forall|p: int| 0 <= p < paints@.len() ==> wf_paint(#[trigger] paints@[p]),
{
    let mut i: usize = 0;
    while i < paints.len()
        invariant
            i <= paints.len(),
            forall|ii: int| 0 <= ii < i ==> wf_paint(#[trigger] paints@[ii]),
        decreases paints.len() - i,
    {
        let ok = match &paints[i] {
            Paint::Solid(_) => true,
            Paint::Linear(g) => check_stops(&g.stops),
            Paint::Radial(g) => check_stops(&g.stops),
            Paint::Pattern(_) => true,
        };
        if !ok {
            return false;
        }
        i = i + 1;
    }
    true
}

fn check_defs(defs: &Vec<Def>, paints: &Vec<Paint>, fonts: usize, images: usize) -> (b: bool)
    ensures
        b == forall|k: int|
            0 <= k < defs@.len() ==> wf_def(#[trigger] defs@[k], k, defs@, paints@, fonts as int,
                images as int),
{
    let mut k: usize = 0;
    while k < defs.len()
        invariant
            k <= defs.len(),
            forall|kk: int|
                0 <= kk < k ==> wf_def(#[trigger] defs@[kk], kk, defs@, paints@, fonts as int,
                    images as int),
        decreases defs.len() - k,
    {
        let ok = match &defs[k] {
            Def::Pattern(p) => check_arena(&p.nodes, k, defs, paints, fonts, images)
                && check_roots(&p.roots, p.nodes.len()),
            Def::Mask(m) => check_arena(&m.nodes, k, defs, paints, fonts, images) && check_roots(
                &m.roots,
                m.nodes.len(),
            ),
            Def::Clip(c) => match c.clip {
                Some(cc) => cc < k && matches!(&defs[cc], Def::Clip(_)),
                None => true,
            },
        };
        if !ok {
            return false;
        }
        k = k + 1;
    }
    true
}

impl Tree {
    /// Decide the well-formedness invariant of the scene tree.
    pub fn is_valid(&self) -> (b: bool)
        ensures
            b == wf_tree(*self),
    {
        0 < self.width && 0 < self.height && check_arena(
            &self.nodes,
            self.defs.len(),
            &self.defs,
            &self.paints,
            self.fonts.len(),
            self.images.len(),
        ) && check_roots(&self.roots, self.nodes.len()) && check_defs(
            &self.defs,
            &self.paints,
            self.fonts.len(),
            self.images.len(),
        ) && check_paints(&self.paints)
    }
}

} // verus!
