//! The tree walker: the recursive converter from the scene tree to the
//! event output.
//!
//! Every executable function here has a spec mirror stating exactly which
//! events and operators it appends and how it advances the conversion state,
//! so the whole conversion is pinned down as a mathematical function of the
//! tree and the options.  The mirrors carry defensive branches that end in
//! [`crate::api::ConversionError::UnknownError`] for indices a well-formed
//! tree can never produce; under [`crate::scene::wf_tree`] those branches
//! are unreachable.

use crate::api::{ConversionError, ConversionOptions, PageOptions};
use crate::content::{icc_count, is_icc, lemma_icc_count_append, lemma_icc_count_zero, Event, IccKind, Op, ResKind, ShadingKind, XObjectKind};
use crate::ctx::{
    CacheEntry,
    spec_allocate, spec_get_or_create, spec_pop_scope, spec_push_scope, spec_record_glyph,
    spec_register, cache_keys_distinct, Ctx, CtxModel, GlyphUse, ResEntry, ResKey,
};
use crate::fx::{fx_ceil_units, fx_div, fx_mul, fx_sub, spec_fx_ceil_units, spec_fx_div, spec_fx_mul, spec_fx_sub, FX_MAX, FX_ONE};
use crate::geom::{
    apply_segment, segments_bbox, spec_apply_segment, spec_segments_bbox, spec_rect_bbox,
    rect_bbox, spec_extend, spec_bbox_union, bbox_union, BBox, Segment,
};
use crate::scene::{
    wf_arena, wf_def, wf_node, wf_paint, wf_roots, wf_stops, ClipDef, Color, Def, Fill, FillRule,
    FontInfo, Glyph, GradientUnits, Group, ImageFormat, ImageInfo, ImageNode, LinearGradient,
    MaskDef, MaskKind, Node, Paint, PathNode, PatternDef, RadialGradient, Stop, Stroke, TextNode,
    Tree,
};
use crate::transform::Transform;
use vstd::prelude::*;

verus! {

/// What one conversion step appends and how it advances the state.
#[verifier::ext_equal]
pub struct StepOut {
    /// Events appended to the output (complete object blocks).
    pub events: Seq<Event>,
    /// Operators appended to the content stream under construction.
    pub ops: Seq<Op>,
    /// The conversion state afterwards.
    pub ctx: CtxModel,
    /// The error, if the step failed; what was appended up to the failure
    /// stays in place.
    pub err: Option<ConversionError>,
}

/// The shared definitions of the tree are well formed (the per-arena parts
/// of `wf_tree`, without the main arena).
pub open spec fn wf_shared(t: Tree) -> bool {
    &&& (forall|k: int|
        0 <= k < t.defs@.len() ==> wf_def(
            #[trigger] t.defs@[k],
            k,
            t.defs@,
            t.paints@,
            t.fonts@.len() as int,
            t.images@.len() as int,
        ))
    &&& (forall|p: int| 0 <= p < t.paints@.len() ==> wf_paint(#[trigger] t.paints@[p]))
}

/// Shorthand for the arena invariant of the node list the walker is in.
pub open spec fn arena_ok(t: Tree, nodes: Seq<Node>, bound: int) -> bool {
    &&& wf_shared(t)
    &&& 0 <= bound <= t.defs@.len()
    &&& wf_arena(nodes, bound, t.defs@, t.paints@, t.fonts@.len() as int, t.images@.len() as int)
}

// ---------------------------------------------------------------------------
// Clip chains (§ compositor): a clip definition is emitted as its chain of
// geometries, outermost first; successive clip operators intersect, which
// flattens the chain.
// ---------------------------------------------------------------------------

/// Operators of one clip geometry: its segments, pre-mapped through the
/// clip's own transform, a clip operator, and a path end.
pub open spec fn spec_clip_geometry_ops(c: ClipDef) -> Seq<Op> {
    segment_ops(c.segments@.map_values(|s: Segment| spec_apply_segment(c.transform, s))) + seq![
        Op::ClipPath { rule: c.rule },
    ]
}

/// Operators of the whole chain of the clip at index `c`: ancestors first.
pub open spec fn spec_clip_chain_ops(defs: Seq<Def>, c: int) -> Seq<Op>
    decreases c,
{
    if 0 <= c < defs.len() {
        match defs[c] {
            Def::Clip(cd) => match cd.clip {
                Some(parent) => if parent < c {
                    spec_clip_chain_ops(defs, parent as int) + spec_clip_geometry_ops(cd)
                } else {
                    spec_clip_geometry_ops(cd)
                },
                None => spec_clip_geometry_ops(cd),
            },
            _ => Seq::empty(),
        }
    } else {
        Seq::empty()
    }
}

/// Path-construction operators of a segment sequence.
pub open spec fn segment_ops(segs: Seq<Segment>) -> Seq<Op> {
    segs.map_values(
        |s: Segment|
            match s {
                Segment::MoveTo { x, y } => Op::MoveTo { x, y },
                Segment::LineTo { x, y } => Op::LineTo { x, y },
                Segment::CubicTo { x1, y1, x2, y2, x, y } => Op::CubicTo { x1, y1, x2, y2, x, y },
                Segment::Close => Op::ClosePath,
            },
    )
}

/// Emit the path-construction operators of `segs`, each segment first mapped
/// through `t`.
fn push_segment_ops(ops: &mut Vec<Op>, segs: &Vec<Segment>, t: &Transform)
    ensures
        final(ops)@ == old(ops)@ + segment_ops(
            segs@.map_values(|s: Segment| spec_apply_segment(*t, s)),
        ),
{
    let ghost mapped = segs@.map_values(|s: Segment| spec_apply_segment(*t, s));
    let mut i: usize = 0;
    while i < segs.len()
        invariant
            i <= segs.len(),
            mapped == segs@.map_values(|s: Segment| spec_apply_segment(*t, s)),
            ops@ == old(ops)@ + segment_ops(mapped.subrange(0, i as int)),
        decreases segs.len() - i,
    {
        let s = apply_segment(t, &segs[i]);
        let op = match s {
            Segment::MoveTo { x, y } => Op::MoveTo { x, y },
            Segment::LineTo { x, y } => Op::LineTo { x, y },
            Segment::CubicTo { x1, y1, x2, y2, x, y } => Op::CubicTo { x1, y1, x2, y2, x, y },
            Segment::Close => Op::ClosePath,
        };
        ops.push(op);
        proof {
            assert(mapped.subrange(0, i as int + 1).drop_last() =~= mapped.subrange(0, i as int));
            assert(segment_ops(mapped.subrange(0, i as int + 1)) =~= segment_ops(
                mapped.subrange(0, i as int),
            ).push(op));
        }
        i = i + 1;
    }
    proof {
        assert(mapped.subrange(0, segs@.len() as int) =~= mapped);
    }
}

/// Emit the operators of the clip chain ending at clip `c`.
pub fn push_clip_chain_ops(tree: &Tree, c: usize, ops: &mut Vec<Op>)
    requires
        wf_shared(*tree),
        c < tree.defs@.len(),
    ensures
        final(ops)@ == old(ops)@ + spec_clip_chain_ops(tree.defs@, c as int),
    decreases c,
{
    match &tree.defs[c] {
        Def::Clip(cd) => {
            match cd.clip {
                Some(parent) => {
                    if parent < c {
                        push_clip_chain_ops(tree, parent, ops);
                    }
                },
                None => {},
            }
            push_segment_ops(ops, &cd.segments, &cd.transform);
            ops.push(Op::ClipPath { rule: cd.rule });
            proof {
                assert(final(ops)@ =~= old(ops)@ + spec_clip_chain_ops(tree.defs@, c as int));
            }
        },
        _ => {
            proof {
                assert(spec_clip_chain_ops(tree.defs@, c as int) =~= Seq::<Op>::empty());
                assert(final(ops)@ =~= old(ops)@ + spec_clip_chain_ops(tree.defs@, c as int));
            }
        },
    }
}

// ---------------------------------------------------------------------------
// Bounding boxes of subtrees (control-point hulls, used by the filter
// fallback and by transparency-group extents).
// ---------------------------------------------------------------------------

/// The points of a glyph run, mapped through `t`, folded into `acc`.
pub open spec fn spec_glyphs_bbox(acc: Option<BBox>, glyphs: Seq<Glyph>, t: Transform) -> Option<
    BBox,
>
    decreases glyphs.len(),
{
    if glyphs.len() == 0 {
        acc
    } else {
        let g = glyphs[0];
        spec_glyphs_bbox(
            spec_extend(acc, t.spec_apply_x(g.x, g.y), t.spec_apply_y(g.x, g.y)),
            glyphs.skip(1),
            t,
        )
    }
}

/// Device hull of the node at `i`, under accumulated transform `ts`.
pub open spec fn spec_node_bbox(nodes: Seq<Node>, i: int, ts: Transform) -> Option<BBox>
    decreases nodes.len() - i, 2int, 1int,
{
    if 0 <= i < nodes.len() {
        match nodes[i] {
            Node::Group(g) => spec_list_bbox(
                nodes,
                i,
                g.children@,
                g.children@.len() as int,
                ts.spec_concat(g.transform),
            ),
            Node::Path(p) => spec_segments_bbox(None, p.segments@, ts.spec_concat(p.transform)),
            Node::Image(im) => spec_rect_bbox(ts.spec_concat(im.transform), im.width, im.height),
            Node::Text(t) => spec_glyphs_bbox(None, t.glyphs@, ts.spec_concat(t.transform)),
        }
    } else {
        None
    }
}

/// Union of the hulls of the first `j` nodes of `kids`, all of which lie
/// above `parent` in the arena.
pub open spec fn spec_list_bbox(
    nodes: Seq<Node>,
    parent: int,
    kids: Seq<usize>,
    j: int,
    ts: Transform,
) -> Option<BBox>
    decreases nodes.len() - parent, 1int, j,
{
    if j <= 0 || j > kids.len() {
        None
    } else {
        let prev = spec_list_bbox(nodes, parent, kids, j - 1, ts);
        let k = kids[j - 1] as int;
        if parent < k < nodes.len() {
            spec_bbox_union(prev, spec_node_bbox(nodes, k, ts))
        } else {
            prev
        }
    }
}

/// Executable hull of the node at `i`.
pub fn node_bbox(nodes: &Vec<Node>, i: usize, ts: &Transform) -> (r: Option<BBox>)
    requires
        i < nodes@.len(),
        forall|ii: int|
            0 <= ii < nodes@.len() ==> node_children_above(#[trigger] nodes@[ii], ii, nodes@.len() as int),
    ensures
        r == spec_node_bbox(nodes@, i as int, *ts),
    decreases nodes@.len() - i, 2int, 1int,
{
    match &nodes[i] {
        Node::Group(g) => {
            let tchild = ts.concat(&g.transform);
            list_bbox(nodes, Ghost(i as int), &g.children, &tchild)
        },
        Node::Path(p) => segments_bbox(None, &p.segments, &ts.concat(&p.transform)),
        Node::Image(im) => rect_bbox(&ts.concat(&im.transform), im.width, im.height),
        Node::Text(t) => {
            let tt = ts.concat(&t.transform);
            let mut acc: Option<BBox> = None;
            let mut gi: usize = 0;
            proof {
                assert(t.glyphs@.skip(0) =~= t.glyphs@);
            }
            while gi < t.glyphs.len()
                invariant
                    gi <= t.glyphs.len(),
                    spec_glyphs_bbox(None, t.glyphs@, tt) == spec_glyphs_bbox(
                        acc,
                        t.glyphs@.skip(gi as int),
                        tt,
                    ),
                decreases t.glyphs.len() - gi,
            {
                let g = t.glyphs[gi];
                let p = tt.apply(g.x, g.y);
                proof {
                    assert(t.glyphs@.skip(gi as int)[0] == t.glyphs@[gi as int]);
                    assert(t.glyphs@.skip(gi as int).skip(1) =~= t.glyphs@.skip(gi as int + 1));
                }
                acc = crate::geom::bbox_extend(acc, p.0, p.1);
                gi = gi + 1;
            }
            proof {
                assert(t.glyphs@.skip(t.glyphs@.len() as int) =~= Seq::<Glyph>::empty());
            }
            acc
        },
    }
}

/// The children of one node all lie strictly above it (the part of
/// `wf_node` that the hull walk needs).
pub open spec fn node_children_above(n: Node, i: int, len: int) -> bool {
    match n {
        Node::Group(g) => forall|j: int|
            0 <= j < g.children@.len() ==> i < (#[trigger] g.children@[j]) as int && (
            g.children@[j] as int) < len,
        _ => true,
    }
}

/// Executable hull of a child list of `parent`.
pub fn list_bbox(
    nodes: &Vec<Node>,
    Ghost(parent): Ghost<int>,
    kids: &Vec<usize>,
    ts: &Transform,
) -> (r: Option<BBox>)
    requires
        parent >= -1,
        forall|ii: int|
            0 <= ii < nodes@.len() ==> node_children_above(#[trigger] nodes@[ii], ii, nodes@.len() as int),
        forall|j: int|
            0 <= j < kids@.len() ==> parent < (#[trigger] kids@[j]) as int && (kids@[j] as int)
                < nodes@.len(),
    ensures
        r == spec_list_bbox(nodes@, parent, kids@, kids@.len() as int, *ts),
    decreases nodes@.len() - parent, 1int, 0int,
{
    let mut acc: Option<BBox> = None;
    let mut j: usize = 0;
    while j < kids.len()
        invariant
            j <= kids.len(),
            forall|ii: int|
                0 <= ii < nodes@.len() ==> node_children_above(
                    #[trigger] nodes@[ii],
                    ii,
                    nodes@.len() as int,
                ),
            parent >= -1,
            forall|jj: int|
                0 <= jj < kids@.len() ==> parent < (#[trigger] kids@[jj]) as int && (
                kids@[jj] as int) < nodes@.len(),
            acc == spec_list_bbox(nodes@, parent, kids@, j as int, *ts),
        decreases kids.len() - j,
    {
        let k = kids[j];
        let nb = node_bbox(nodes, k, ts);
        acc = bbox_union(acc, nb);
        j = j + 1;
    }
    acc
}

// ---------------------------------------------------------------------------
// Object blocks.
// ---------------------------------------------------------------------------

pub open spec fn op_events(body: Seq<Op>) -> Seq<Event> {
    body.map_values(|o: Op| Event::Op(o))
}

pub open spec fn dict_events(dict: Seq<ResEntry>) -> Seq<Event> {
    dict.map_values(|e: ResEntry| Event::Resource { kind: e.kind, name: e.name, id: e.id })
}

/// One complete object block: opener, content operators, resource
/// dictionary, end.
pub open spec fn spec_block(begin: Event, body: Seq<Op>, dict: Seq<ResEntry>) -> Seq<Event> {
    seq![begin] + op_events(body) + dict_events(dict) + seq![Event::End]
}

/// Append one complete object block to the output.
fn emit_block(out: &mut Vec<Event>, begin: Event, body: &Vec<Op>, dict: &Vec<ResEntry>)
    requires
        !(begin is IccProfile),
    ensures
        final(out)@ == old(out)@ + spec_block(begin, body@, dict@),
        forall|j: int|
            old(out)@.len() <= j < final(out)@.len() ==> !(#[trigger] final(out)@[j] is IccProfile),
{
    out.push(begin);
    let mut i: usize = 0;
    while i < body.len()
        invariant
            i <= body.len(),
            out@ == old(out)@ + seq![begin] + op_events(body@.subrange(0, i as int)),
        decreases body.len() - i,
    {
        let op = body[i];
        out.push(Event::Op(op));
        proof {
            assert(body@.subrange(0, i as int + 1).drop_last() =~= body@.subrange(0, i as int));
            assert(op_events(body@.subrange(0, i as int + 1)) =~= op_events(
                body@.subrange(0, i as int),
            ).push(Event::Op(op)));
            assert(out@ =~= old(out)@ + seq![begin] + op_events(body@.subrange(0, i as int + 1)));
        }
        i = i + 1;
    }
    proof {
        assert(body@.subrange(0, body@.len() as int) =~= body@);
    }
    let mut d: usize = 0;
    while d < dict.len()
        invariant
            d <= dict.len(),
            out@ == old(out)@ + seq![begin] + op_events(body@) + dict_events(
                dict@.subrange(0, d as int),
            ),
        decreases dict.len() - d,
    {
        let e = dict[d];
        out.push(Event::Resource { kind: e.kind, name: e.name, id: e.id });
        proof {
            assert(dict@.subrange(0, d as int + 1).drop_last() =~= dict@.subrange(0, d as int));
            assert(dict_events(dict@.subrange(0, d as int + 1)) =~= dict_events(
                dict@.subrange(0, d as int),
            ).push(Event::Resource { kind: e.kind, name: e.name, id: e.id }));
            assert(out@ =~= old(out)@ + seq![begin] + op_events(body@) + dict_events(
                dict@.subrange(0, d as int + 1),
            ));
        }
        d = d + 1;
    }
    proof {
        assert(dict@.subrange(0, dict@.len() as int) =~= dict@);
    }
    out.push(Event::End);
    proof {
        assert(final(out)@ =~= old(out)@ + spec_block(begin, body@, dict@));
        assert forall|j: int|
            old(out)@.len() <= j < final(out)@.len() implies !(#[trigger] final(out)@[j] is IccProfile) by {
            let s = spec_block(begin, body@, dict@);
            let jj = j - old(out)@.len();
            assert(final(out)@[j] == s[jj]);
            if jj == 0 {
            } else if jj <= body@.len() {
                assert(s[jj] == op_events(body@)[jj - 1]);
            } else if jj <= body@.len() + dict@.len() {
                assert(s[jj] == dict_events(dict@)[jj - 1 - body@.len()]);
            } else {
                assert(s[jj] == Event::End);
            }
        }
    }
}

// ---------------------------------------------------------------------------
// Paint setup (§ paint translator): what a fill or stroke paints with.
// ---------------------------------------------------------------------------

/// What setting up one paint appends and how it advances the state.
/// `painted` is false for an empty gradient stop list, which falls back to
/// an implicit transparent fill: nothing is painted at all.
#[verifier::ext_equal]
pub struct PaintOut {
    pub events: Seq<Event>,
    pub ops: Seq<Op>,
    pub ctx: CtxModel,
    pub painted: bool,
}

pub open spec fn stop_events(stops: Seq<Stop>) -> Seq<Event> {
    stops.map_values(
        |s: Stop| Event::GradientStop { offset: s.offset, color: s.color, opacity: s.opacity },
    )
}

/// Whether any stop is not fully opaque (such a gradient needs a derived
/// alpha channel in the writer).
pub open spec fn stops_have_alpha(stops: Seq<Stop>) -> bool {
    exists|i: int| 0 <= i < stops.len() && #[trigger] stops[i].opacity != FX_ONE
}

/// A shading pattern object block.
pub open spec fn shading_block(
    id: u64,
    kind: ShadingKind,
    eff: Transform,
    icc: u64,
    stops: Seq<Stop>,
) -> Seq<Event> {
    seq![Event::BeginShading { id, kind, matrix: eff, icc, has_alpha: stops_have_alpha(stops) }]
        + stop_events(stops) + seq![Event::End]
}

/// Set up a solid paint: the sRGB ICC space is registered in the current
/// scope and one color operator is produced.
pub open spec fn spec_setup_solid(color: Color, for_stroke: bool, m: CtxModel) -> PaintOut {
    let (icc, fresh, m1) = spec_get_or_create(m, ResKey::Icc(IccKind::Srgb));
    let (cs_name, m2) = spec_register(m1, ResKind::ColorSpace, icc);
    PaintOut {
        events: Seq::empty(),
        ops: seq![
            if for_stroke {
                Op::SetStrokeColor { cs_name, color }
            } else {
                Op::SetFillColor { cs_name, color }
            },
        ],
        ctx: m2,
        painted: true,
    }
}

/// Set up a gradient paint: the shading object is written once per
/// `(paint, matrix)` key, registered in the current scope, and one pattern
/// operator is produced.  An empty stop list paints nothing.
pub open spec fn spec_setup_gradient(
    paint: usize,
    stops: Seq<Stop>,
    kind: ShadingKind,
    eff: Transform,
    for_stroke: bool,
    m: CtxModel,
) -> PaintOut {
    if stops.len() == 0 {
        PaintOut { events: Seq::empty(), ops: Seq::empty(), ctx: m, painted: false }
    } else {
        let (icc, icc_fresh, m1) = spec_get_or_create(m, ResKey::Icc(IccKind::Srgb));
        let (sid, fresh, m2) = spec_get_or_create(m1, ResKey::PaintAt { paint, matrix: eff });
        let events = if fresh {
            shading_block(sid, kind, eff, icc, stops)
        } else {
            Seq::empty()
        };
        let (name, m3) = spec_register(m2, ResKind::Pattern, sid);
        PaintOut {
            events,
            ops: seq![
                if for_stroke {
                    Op::SetStrokePattern { name }
                } else {
                    Op::SetFillPattern { name }
                },
            ],
            ctx: m3,
            painted: true,
        }
    }
}

fn stops_alpha(stops: &Vec<Stop>) -> (b: bool)
    ensures
        b == stops_have_alpha(stops@),
{
    let mut i: usize = 0;
    while i < stops.len()
        invariant
            i <= stops.len(),
            forall|j: int| 0 <= j < i ==> #[trigger] stops@[j].opacity == FX_ONE,
        decreases stops.len() - i,
    {
        if stops[i].opacity != FX_ONE {
            proof {
                assert(stops@[i as int].opacity != FX_ONE);
            }
            return true;
        }
        i = i + 1;
    }
    false
}

fn setup_solid(
    color: Color,
    for_stroke: bool,
    ctx: &mut Ctx,
    out: &mut Vec<Event>,
    ops: &mut Vec<Op>,
) -> (painted: bool)
    requires
        old(ctx)@.scopes.len() > 0,
    ensures
        painted == spec_setup_solid(color, for_stroke, old(ctx)@).painted,
        final(ctx)@ == spec_setup_solid(color, for_stroke, old(ctx)@).ctx,
        final(out)@ == old(out)@ + spec_setup_solid(color, for_stroke, old(ctx)@).events,
        final(ops)@ == old(ops)@ + spec_setup_solid(color, for_stroke, old(ctx)@).ops,
        forall|j: int|
            old(out)@.len() <= j < final(out)@.len() ==> !(#[trigger] final(out)@[j] is IccProfile),
        cache_keys_distinct(old(ctx)@.cache) ==> cache_keys_distinct(final(ctx)@.cache),
        final(ctx)@.scopes.len() == old(ctx)@.scopes.len(),
{
    let r = ctx.get_or_create(ResKey::Icc(IccKind::Srgb));
    let cs_name = ctx.register(ResKind::ColorSpace, r.0);
    if for_stroke {
        ops.push(Op::SetStrokeColor { cs_name, color });
    } else {
        ops.push(Op::SetFillColor { cs_name, color });
    }
    proof {
        assert(final(out)@ =~= old(out)@ + spec_setup_solid(color, for_stroke, old(ctx)@).events);
        assert(final(ops)@ =~= old(ops)@ + spec_setup_solid(color, for_stroke, old(ctx)@).ops);
    }
    true
}

fn setup_gradient(
    paint: usize,
    stops: &Vec<Stop>,
    kind: ShadingKind,
    eff: Transform,
    for_stroke: bool,
    ctx: &mut Ctx,
    out: &mut Vec<Event>,
    ops: &mut Vec<Op>,
) -> (painted: bool)
    requires
        old(ctx)@.scopes.len() > 0,
    ensures
        painted == spec_setup_gradient(paint, stops@, kind, eff, for_stroke, old(ctx)@).painted,
        final(ctx)@ == spec_setup_gradient(paint, stops@, kind, eff, for_stroke, old(ctx)@).ctx,
        final(out)@ == old(out)@ + spec_setup_gradient(
            paint,
            stops@,
            kind,
            eff,
            for_stroke,
            old(ctx)@,
        ).events,
        final(ops)@ == old(ops)@ + spec_setup_gradient(
            paint,
            stops@,
            kind,
            eff,
            for_stroke,
            old(ctx)@,
        ).ops,
        forall|j: int|
            old(out)@.len() <= j < final(out)@.len() ==> !(#[trigger] final(out)@[j] is IccProfile),
        cache_keys_distinct(old(ctx)@.cache) ==> cache_keys_distinct(final(ctx)@.cache),
        final(ctx)@.scopes.len() == old(ctx)@.scopes.len(),
{
    if stops.len() == 0 {
        proof {
            assert(final(out)@ =~= old(out)@ + Seq::<Event>::empty());
            assert(final(ops)@ =~= old(ops)@ + Seq::<Op>::empty());
        }
        return false;
    }
    let icc = ctx.get_or_create(ResKey::Icc(IccKind::Srgb));
    let sh = ctx.get_or_create(ResKey::PaintAt { paint, matrix: eff });
    if sh.1 {
        let has_alpha = stops_alpha(stops);
        out.push(Event::BeginShading { id: sh.0, kind, matrix: eff, icc: icc.0, has_alpha });
        let ghost mid = out@;
        let mut i: usize = 0;
        while i < stops.len()
            invariant
                i <= stops.len(),
                out@ == mid + stop_events(stops@.subrange(0, i as int)),
            decreases stops.len() - i,
        {
            let s = stops[i];
            out.push(Event::GradientStop { offset: s.offset, color: s.color, opacity: s.opacity });
            proof {
                assert(stops@.subrange(0, i as int + 1).drop_last() =~= stops@.subrange(
                    0,
                    i as int,
                ));
                assert(stop_events(stops@.subrange(0, i as int + 1)) =~= stop_events(
                    stops@.subrange(0, i as int),
                ).push(Event::GradientStop { offset: s.offset, color: s.color, opacity: s.opacity }));
                assert(out@ =~= mid + stop_events(stops@.subrange(0, i as int + 1)));
            }
            i = i + 1;
        }
        proof {
            assert(stops@.subrange(0, stops@.len() as int) =~= stops@);
        }
        out.push(Event::End);
        proof {
            assert(final(out)@ =~= old(out)@ + spec_setup_gradient(
                paint,
                stops@,
                kind,
                eff,
                for_stroke,
                old(ctx)@,
            ).events);
            let appended = spec_setup_gradient(
                paint,
                stops@,
                kind,
                eff,
                for_stroke,
                old(ctx)@,
            ).events;
            assert forall|j: int|
                old(out)@.len() <= j < final(out)@.len() implies !(#[trigger] final(out)@[j] is IccProfile) by {
                let jj = j - old(out)@.len();
                assert(final(out)@[j] == appended[jj]);
                if 0 < jj < 1 + stops@.len() {
                    assert(appended[jj] == stop_events(stops@)[jj - 1]);
                }
            }
        }
    } else {
        proof {
            assert(final(out)@ =~= old(out)@ + Seq::<Event>::empty());
        }
    }
    let name = ctx.register(ResKind::Pattern, sh.0);
    if for_stroke {
        ops.push(Op::SetStrokePattern { name });
    } else {
        ops.push(Op::SetFillPattern { name });
    }
    proof {
        assert(final(ops)@ =~= old(ops)@ + spec_setup_gradient(
            paint,
            stops@,
            kind,
            eff,
            for_stroke,
            old(ctx)@,
        ).ops);
    }
    true
}


// ---------------------------------------------------------------------------
// Images (§ tree walker, image nodes): embedded as direct-mapped device
// color, deduplicated per image arena index.
// ---------------------------------------------------------------------------

/// Largest accepted pixel side length of a raster image.
pub const MAX_IMAGE_SIDE: u64 = 0xFFFF_FFFF;

/// A raster image is consistent: known format, plausible dimensions, and
/// sample data of exactly the advertised size.
pub open spec fn image_ok(info: ImageInfo) -> bool {
    match info.format {
        ImageFormat::Unsupported => false,
        ImageFormat::Jpeg => true,
        ImageFormat::Rgb8 => info.width_px <= MAX_IMAGE_SIDE && info.height_px <= MAX_IMAGE_SIDE
            && info.data@.len() == info.width_px * info.height_px * 3,
        ImageFormat::Rgba8 => info.width_px <= MAX_IMAGE_SIDE && info.height_px <= MAX_IMAGE_SIDE
            && info.data@.len() == info.width_px * info.height_px * 4,
    }
}

/// Convert one image node: reject an inconsistent raster, write the image
/// object once per arena index, and place it under the node's transform.
pub open spec fn spec_convert_image(t: Tree, im: ImageNode, m: CtxModel) -> StepOut {
    if im.image >= t.images@.len() {
        StepOut {
            events: Seq::empty(),
            ops: Seq::empty(),
            ctx: m,
            err: Some(ConversionError::UnknownError),
        }
    } else if !image_ok(t.images@[im.image as int]) {
        StepOut {
            events: Seq::empty(),
            ops: Seq::empty(),
            ctx: m,
            err: Some(ConversionError::InvalidImage),
        }
    } else {
        let (id, fresh, m1) = spec_get_or_create(m, ResKey::Image(im.image));
        let events = if fresh {
            seq![Event::ImageObject { id, image: im.image }]
        } else {
            Seq::empty()
        };
        let (name, m2) = spec_register(m1, ResKind::XObject, id);
        StepOut {
            events,
            ops: seq![
                Op::Save,
                Op::Concat(
                    im.transform.spec_concat(Transform::spec_scale(im.width, im.height)),
                ),
                Op::DrawXObject { name },
                Op::Restore,
            ],
            ctx: m2,
            err: None,
        }
    }
}

/// The advertised sample count of a raster matches its data.
fn raster_len_ok(w: u64, h: u64, comps: u64, len: usize) -> (b: bool)
    requires
        1 <= comps <= 4,
    ensures
        b == (w <= MAX_IMAGE_SIDE && h <= MAX_IMAGE_SIDE && len as int == w * h * comps),
{
    if w > MAX_IMAGE_SIDE || h > MAX_IMAGE_SIDE {
        return false;
    }
    proof {
        assert(w as u128 * (h as u128) <= 0xFFFF_FFFFu128 * 0xFFFF_FFFFu128) by (nonlinear_arith)
            requires
                w as u128 <= 0xFFFF_FFFFu128,
                h as u128 <= 0xFFFF_FFFFu128,
        ;
    }
    let p: u128 = w as u128 * h as u128;
    proof {
        assert(p * (comps as u128) <= p * 4) by (nonlinear_arith)
            requires
                comps as u128 <= 4,
        ;
    }
    let t: u128 = p * (comps as u128);
    len as u128 == t
}

fn convert_image(
    tree: &Tree,
    im: &ImageNode,
    ctx: &mut Ctx,
    out: &mut Vec<Event>,
    ops: &mut Vec<Op>,
) -> (r: Result<(), ConversionError>)
    requires
        old(ctx)@.scopes.len() > 0,
    ensures
        final(ctx)@ == spec_convert_image(*tree, *im, old(ctx)@).ctx,
        final(out)@ == old(out)@ + spec_convert_image(*tree, *im, old(ctx)@).events,
        final(ops)@ == old(ops)@ + spec_convert_image(*tree, *im, old(ctx)@).ops,
        r matches Ok(()) <==> spec_convert_image(*tree, *im, old(ctx)@).err is None,
        r matches Err(e) ==> spec_convert_image(*tree, *im, old(ctx)@).err == Some(e),
        forall|j: int|
            old(out)@.len() <= j < final(out)@.len() ==> !(#[trigger] final(out)@[j] is IccProfile),
        cache_keys_distinct(old(ctx)@.cache) ==> cache_keys_distinct(final(ctx)@.cache),
        final(ctx)@.scopes.len() == old(ctx)@.scopes.len(),
{
    if im.image >= tree.images.len() {
        proof {
            assert(final(out)@ =~= old(out)@ + Seq::<Event>::empty());
            assert(final(ops)@ =~= old(ops)@ + Seq::<Op>::empty());
        }
        return Err(ConversionError::UnknownError);
    }
    let info = &tree.images[im.image];
    let ok: bool = match info.format {
        ImageFormat::Unsupported => false,
        ImageFormat::Jpeg => true,
        ImageFormat::Rgb8 => raster_len_ok(info.width_px, info.height_px, 3, info.data.len()),
        ImageFormat::Rgba8 => raster_len_ok(info.width_px, info.height_px, 4, info.data.len()),
    };
    if !ok {
        proof {
            assert(final(out)@ =~= old(out)@ + Seq::<Event>::empty());
            assert(final(ops)@ =~= old(ops)@ + Seq::<Op>::empty());
        }
        return Err(ConversionError::InvalidImage);
    }
    let r = ctx.get_or_create(ResKey::Image(im.image));
    if r.1 {
        out.push(Event::ImageObject { id: r.0, image: im.image });
    }
    let name = ctx.register(ResKind::XObject, r.0);
    ops.push(Op::Save);
    ops.push(Op::Concat(im.transform.concat(&Transform::scale(im.width, im.height))));
    ops.push(Op::DrawXObject { name });
    ops.push(Op::Restore);
    proof {
        assert(final(out)@ =~= old(out)@ + spec_convert_image(*tree, *im, old(ctx)@).events);
        assert(final(ops)@ =~= old(ops)@ + spec_convert_image(*tree, *im, old(ctx)@).ops);
    }
    Ok(())
}

// ---------------------------------------------------------------------------
// Glyph runs (§ text encoder): show operators plus usage collection.
// ---------------------------------------------------------------------------

/// Show operators and recorded usage of the first `j` glyphs of a run.
pub open spec fn spec_show_glyphs(font: usize, glyphs: Seq<Glyph>, j: int, m: CtxModel) -> (
    Seq<Op>,
    CtxModel,
)
    decreases j,
{
    if j <= 0 || j > glyphs.len() {
        (Seq::empty(), m)
    } else {
        let prev = spec_show_glyphs(font, glyphs, j - 1, m);
        let g = glyphs[j - 1];
        (
            prev.0 + seq![Op::ShowGlyph { gid: g.gid, x: g.x, y: g.y }],
            spec_record_glyph(prev.1, GlyphUse { font, gid: g.gid }),
        )
    }
}

fn show_glyphs(font: usize, glyphs: &Vec<Glyph>, ctx: &mut Ctx, ops: &mut Vec<Op>)
    ensures
        final(ops)@ == old(ops)@ + spec_show_glyphs(
            font,
            glyphs@,
            glyphs@.len() as int,
            old(ctx)@,
        ).0,
        final(ctx)@ == spec_show_glyphs(font, glyphs@, glyphs@.len() as int, old(ctx)@).1,
        final(ctx)@.cache == old(ctx)@.cache,
        final(ctx)@.scopes == old(ctx)@.scopes,
{
    let mut i: usize = 0;
    while i < glyphs.len()
        invariant
            i <= glyphs.len(),
            ops@ == old(ops)@ + spec_show_glyphs(font, glyphs@, i as int, old(ctx)@).0,
            ctx@ == spec_show_glyphs(font, glyphs@, i as int, old(ctx)@).1,
            ctx@.cache == old(ctx)@.cache,
            ctx@.scopes == old(ctx)@.scopes,
        decreases glyphs.len() - i,
    {
        let g = glyphs[i];
        ops.push(Op::ShowGlyph { gid: g.gid, x: g.x, y: g.y });
        ctx.record_glyph(font, g.gid);
        proof {
            assert(ops@ =~= old(ops)@ + spec_show_glyphs(
                font,
                glyphs@,
                i as int + 1,
                old(ctx)@,
            ).0);
        }
        i = i + 1;
    }
}

// ---------------------------------------------------------------------------
// Final global objects (§ resource deduplicator): the ICC profiles that
// were used, written exactly once each, and one subset font object per
// used font.
// ---------------------------------------------------------------------------

/// The glyph events of font `f` among the first `j` recorded uses.
pub open spec fn font_glyph_events(glyphs: Seq<GlyphUse>, f: usize, j: int) -> Seq<Event>
    decreases j,
{
    if j <= 0 || j > glyphs.len() {
        Seq::empty()
    } else {
        font_glyph_events(glyphs, f, j - 1) + if glyphs[j - 1].font == f {
            seq![Event::FontGlyph { gid: glyphs[j - 1].gid }]
        } else {
            Seq::empty()
        }
    }
}

/// A subset font object block: the font and the glyphs it must cover.
pub open spec fn font_block(id: u64, f: usize, glyphs: Seq<GlyphUse>) -> Seq<Event> {
    seq![Event::BeginFont { id, font: f }] + font_glyph_events(glyphs, f, glyphs.len() as int)
        + seq![Event::End]
}

/// Events of the first `j` cache entries at end of conversion: one ICC
/// profile per used profile key, one font object per used font; fonts that
/// cannot be subset end the conversion with a typed error.
pub open spec fn spec_finalize(
    cache: Seq<CacheEntry>,
    glyphs: Seq<GlyphUse>,
    fonts: Seq<FontInfo>,
    j: int,
) -> (Seq<Event>, Option<ConversionError>)
    decreases j,
{
    if j <= 0 || j > cache.len() {
        (Seq::empty(), None)
    } else {
        let prev = spec_finalize(cache, glyphs, fonts, j - 1);
        if prev.1 is Some {
            prev
        } else {
            let e = cache[j - 1];
            match e.key {
                ResKey::Icc(k) => (prev.0 + seq![Event::IccProfile { id: e.id, kind: k }], None),
                ResKey::FontRes(f) => if f >= fonts.len() {
                    (prev.0, Some(ConversionError::UnknownError))
                } else if !fonts[f as int].subsettable {
                    (prev.0, Some(ConversionError::SubsetError(f)))
                } else {
                    (prev.0 + font_block(e.id, f, glyphs), None)
                },
                _ => prev,
            }
        }
    }
}

/// Write the deferred global objects.
pub fn write_global_objects(ctx: &Ctx, fonts: &Vec<FontInfo>, out: &mut Vec<Event>) -> (r: Result<
    (),
    ConversionError,
>)
    ensures
        final(out)@ == old(out)@ + spec_finalize(
            ctx@.cache,
            ctx@.glyphs,
            fonts@,
            ctx@.cache.len() as int,
        ).0,
        r matches Ok(()) <==> spec_finalize(
            ctx@.cache,
            ctx@.glyphs,
            fonts@,
            ctx@.cache.len() as int,
        ).1 is None,
        r matches Err(e) ==> spec_finalize(
            ctx@.cache,
            ctx@.glyphs,
            fonts@,
            ctx@.cache.len() as int,
        ).1 == Some(e),
{
    let mut err: Option<ConversionError> = None;
    let mut j: usize = 0;
    while j < ctx.cache.len()
        invariant
            j <= ctx.cache.len(),
            out@ == old(out)@ + spec_finalize(ctx@.cache, ctx@.glyphs, fonts@, j as int).0,
            match err {
                None => spec_finalize(ctx@.cache, ctx@.glyphs, fonts@, j as int).1 is None,
                Some(e) => spec_finalize(ctx@.cache, ctx@.glyphs, fonts@, j as int).1 == Some(e),
            },
        decreases ctx.cache.len() - j,
    {
        if err.is_none() {
            let e = ctx.cache[j];
            match e.key {
                ResKey::Icc(k) => {
                    out.push(Event::IccProfile { id: e.id, kind: k });
                    proof {
                        assert(out@ =~= old(out)@ + spec_finalize(
                            ctx@.cache,
                            ctx@.glyphs,
                            fonts@,
                            j as int + 1,
                        ).0);
                    }
                },
                ResKey::FontRes(f) => {
                    if f >= fonts.len() {
                        err = Some(ConversionError::UnknownError);
                    } else if !fonts[f].subsettable {
                        err = Some(ConversionError::SubsetError(f));
                    } else {
                        out.push(Event::BeginFont { id: e.id, font: f });
                        let ghost mid = out@;
                        let mut gi: usize = 0;
                        while gi < ctx.glyphs.len()
                            invariant
                                gi <= ctx.glyphs.len(),
                                out@ == mid + font_glyph_events(ctx@.glyphs, f, gi as int),
                            decreases ctx.glyphs.len() - gi,
                        {
                            let g = ctx.glyphs[gi];
                            if g.font == f {
                                out.push(Event::FontGlyph { gid: g.gid });
                            }
                            proof {
                                assert(out@ =~= mid + font_glyph_events(
                                    ctx@.glyphs,
                                    f,
                                    gi as int + 1,
                                ));
                            }
                            gi = gi + 1;
                        }
                        out.push(Event::End);
                        proof {
                            assert(out@ =~= old(out)@ + spec_finalize(
                                ctx@.cache,
                                ctx@.glyphs,
                                fonts@,
                                j as int + 1,
                            ).0);
                        }
                    }
                },
                _ => {},
            }
        }
        j = j + 1;
    }
    match err {
        None => Ok(()),
        Some(e) => Err(e),
    }
}

// ---------------------------------------------------------------------------
// At most one ICC profile object per kind.
// ---------------------------------------------------------------------------

proof fn lemma_icc_single(e: Event, k: IccKind)
    ensures
        icc_count(seq![e], k) == if is_icc(e, k) {
            1int
        } else {
            0int
        },
{
    assert(seq![e].drop_last() =~= Seq::<Event>::empty());
    assert(icc_count(Seq::<Event>::empty(), k) == 0);
}

proof fn lemma_fge_no_icc(glyphs: Seq<GlyphUse>, f: usize, j: int, k: IccKind)
    ensures
        icc_count(font_glyph_events(glyphs, f, j), k) == 0,
    decreases j,
{
    if j <= 0 || j > glyphs.len() {
    } else {
        lemma_fge_no_icc(glyphs, f, j - 1, k);
        let tail: Seq<Event> = if glyphs[j - 1].font == f {
            seq![Event::FontGlyph { gid: glyphs[j - 1].gid }]
        } else {
            Seq::empty()
        };
        lemma_icc_count_append(font_glyph_events(glyphs, f, j - 1), tail, k);
        if glyphs[j - 1].font == f {
            lemma_icc_single(Event::FontGlyph { gid: glyphs[j - 1].gid }, k);
        }
    }
}

proof fn lemma_font_block_no_icc(id: u64, f: usize, glyphs: Seq<GlyphUse>, k: IccKind)
    ensures
        icc_count(font_block(id, f, glyphs), k) == 0,
{
    let a: Seq<Event> = seq![Event::BeginFont { id, font: f }];
    let b = font_glyph_events(glyphs, f, glyphs.len() as int);
    let c: Seq<Event> = seq![Event::End];
    lemma_icc_count_append(a + b, c, k);
    lemma_icc_count_append(a, b, k);
    lemma_icc_single(Event::BeginFont { id, font: f }, k);
    lemma_fge_no_icc(glyphs, f, glyphs.len() as int, k);
    lemma_icc_single(Event::End, k);
}

/// How many of the first `j` cache entries carry the given ICC key.
pub open spec fn icc_key_count(cache: Seq<CacheEntry>, k: IccKind, j: int) -> int
    decreases j,
{
    if j <= 0 || j > cache.len() {
        0
    } else {
        icc_key_count(cache, k, j - 1) + if cache[j - 1].key == ResKey::Icc(k) {
            1int
        } else {
            0int
        }
    }
}

proof fn lemma_icc_key_witness(cache: Seq<CacheEntry>, k: IccKind, j: int)
    requires
        icc_key_count(cache, k, j) >= 1,
    ensures
        exists|i: int| 0 <= i < j && (#[trigger] cache[i]).key == ResKey::Icc(k),
    decreases j,
{
    if j <= 0 || j > cache.len() {
    } else if cache[j - 1].key == ResKey::Icc(k) {
        assert(cache[j - 1].key == ResKey::Icc(k));
    } else {
        lemma_icc_key_witness(cache, k, j - 1);
    }
}

proof fn lemma_distinct_key_count(cache: Seq<CacheEntry>, k: IccKind, j: int)
    requires
        cache_keys_distinct(cache),
        j <= cache.len(),
    ensures
        icc_key_count(cache, k, j) <= 1,
    decreases j,
{
    if j <= 0 {
    } else {
        lemma_distinct_key_count(cache, k, j - 1);
        if cache[j - 1].key == ResKey::Icc(k) && icc_key_count(cache, k, j - 1) >= 1 {
            lemma_icc_key_witness(cache, k, j - 1);
            let i = choose|i: int| 0 <= i < j - 1 && (#[trigger] cache[i]).key == ResKey::Icc(k);
            assert(cache[i].key != cache[j - 1].key);
            assert(false);
        }
    }
}

proof fn lemma_finalize_icc_bound(
    cache: Seq<CacheEntry>,
    glyphs: Seq<GlyphUse>,
    fonts: Seq<FontInfo>,
    j: int,
    k: IccKind,
)
    ensures
        icc_count(spec_finalize(cache, glyphs, fonts, j).0, k) <= icc_key_count(cache, k, j),
    decreases j,
{
    if j <= 0 || j > cache.len() {
    } else {
        lemma_finalize_icc_bound(cache, glyphs, fonts, j - 1, k);
        let prev = spec_finalize(cache, glyphs, fonts, j - 1);
        if prev.1 is Some {
        } else {
            let e = cache[j - 1];
            match e.key {
                ResKey::Icc(kk) => {
                    lemma_icc_count_append(
                        prev.0,
                        seq![Event::IccProfile { id: e.id, kind: kk }],
                        k,
                    );
                    lemma_icc_single(Event::IccProfile { id: e.id, kind: kk }, k);
                },
                ResKey::FontRes(f) => {
                    if f < fonts.len() && fonts[f as int].subsettable {
                        lemma_icc_count_append(prev.0, font_block(e.id, f, glyphs), k);
                        lemma_font_block_no_icc(e.id, f, glyphs, k);
                    }
                },
                _ => {},
            }
        }
    }
}

/// With distinct cache keys, the finalize step writes each ICC profile at
/// most once.
pub proof fn lemma_finalize_icc(
    cache: Seq<CacheEntry>,
    glyphs: Seq<GlyphUse>,
    fonts: Seq<FontInfo>,
    k: IccKind,
)
    requires
        cache_keys_distinct(cache),
    ensures
        icc_count(spec_finalize(cache, glyphs, fonts, cache.len() as int).0, k) <= 1,
{
    lemma_finalize_icc_bound(cache, glyphs, fonts, cache.len() as int, k);
    lemma_distinct_key_count(cache, k, cache.len() as int);
}


// ---------------------------------------------------------------------------
// The recursive walker (§ tree walker / content emitter), spec side.
//
// The spec functions below mirror the executable walker exactly.  They are
// total: where a reference would break the arena ordering, they stop with
// an unknown-error step; a tree satisfying `wf_tree` never reaches those
// branches.
// ---------------------------------------------------------------------------

pub open spec fn step_err(m: CtxModel, e: ConversionError) -> StepOut {
    StepOut { events: Seq::empty(), ops: Seq::empty(), ctx: m, err: Some(e) }
}

pub open spec fn step_ok(m: CtxModel) -> StepOut {
    StepOut { events: Seq::empty(), ops: Seq::empty(), ctx: m, err: None }
}

/// An opacity of exactly one is the same as no opacity attribute at all:
/// both mean that no transparency group is needed.
pub open spec fn effective_opacity(o: Option<i64>) -> Option<i64> {
    match o {
        Some(v) => if v == FX_ONE {
            None
        } else {
            Some(v)
        },
        None => None,
    }
}

/// Content length of a definition, for the termination measure.
pub open spec fn def_content_len(defs: Seq<Def>, k: int) -> int {
    if 0 <= k < defs.len() {
        match defs[k] {
            Def::Pattern(p) => p.nodes@.len() as int,
            Def::Mask(mm) => mm.nodes@.len() as int,
            Def::Clip(_) => 0,
        }
    } else {
        0
    }
}

/// The matrix from object-bounding-box gradient space to the space the
/// geometry lives in: the unit square mapped onto the geometry's hull.
pub open spec fn spec_bbox_map(units: GradientUnits, bb: Option<BBox>) -> Transform {
    match units {
        GradientUnits::UserSpace => Transform::spec_identity(),
        GradientUnits::ObjectBoundingBox => match bb {
            Some(b) => Transform {
                a: spec_fx_sub(b.x1, b.x0),
                b: 0,
                c: 0,
                d: spec_fx_sub(b.y1, b.y0),
                e: b.x0,
                f: b.y0,
            },
            None => Transform::spec_identity(),
        },
    }
}

/// A constant-alpha graphics state: written once per alpha value, set in
/// the current scope.  Full opacity needs nothing.
pub open spec fn spec_setup_alpha(alpha: i64, m: CtxModel) -> PaintOut {
    if alpha == FX_ONE {
        PaintOut { events: Seq::empty(), ops: Seq::empty(), ctx: m, painted: true }
    } else {
        let (gid, fresh, m1) = spec_get_or_create(m, ResKey::Alpha(alpha));
        let events = if fresh {
            seq![Event::AlphaState { id: gid, alpha }]
        } else {
            Seq::empty()
        };
        let (name, m2) = spec_register(m1, ResKind::ExtGState, gid);
        PaintOut { events, ops: seq![Op::SetExtGState { name }], ctx: m2, painted: true }
    }
}

/// Convert the first `j` entries of a child list; all its members must lie
/// strictly above `parent` in the arena.
pub open spec fn spec_convert_list(
    t: Tree,
    nodes: Seq<Node>,
    bound: int,
    parent: int,
    kids: Seq<usize>,
    j: int,
    ts: Transform,
    opts: ConversionOptions,
    m: CtxModel,
) -> StepOut
    decreases bound, nodes.len() - parent, 1int, j,
{
    if bound < 0 || j <= 0 || j > kids.len() {
        step_ok(m)
    } else {
        let prev = spec_convert_list(t, nodes, bound, parent, kids, j - 1, ts, opts, m);
        if prev.err is Some {
            prev
        } else {
            let k = kids[j - 1] as int;
            if parent < k < nodes.len() {
                let cur = spec_convert_node(t, nodes, bound, k, ts, opts, prev.ctx);
                StepOut {
                    events: prev.events + cur.events,
                    ops: prev.ops + cur.ops,
                    ctx: cur.ctx,
                    err: cur.err,
                }
            } else {
                StepOut {
                    events: prev.events,
                    ops: prev.ops,
                    ctx: prev.ctx,
                    err: Some(ConversionError::UnknownError),
                }
            }
        }
    }
}

/// Convert one node of the arena.
pub open spec fn spec_convert_node(
    t: Tree,
    nodes: Seq<Node>,
    bound: int,
    i: int,
    ts: Transform,
    opts: ConversionOptions,
    m: CtxModel,
) -> StepOut
    decreases bound, nodes.len() - i, 3int, 0int,
{
    if bound < 0 || !(0 <= i < nodes.len()) {
        step_err(m, ConversionError::UnknownError)
    } else {
        match nodes[i] {
            Node::Group(g) => spec_convert_group(t, nodes, bound, i, g, ts, opts, m),
            Node::Path(p) => spec_convert_path(t, nodes, bound, i, p, ts, opts, m),
            Node::Image(im) => spec_convert_image(t, im, m),
            Node::Text(tx) => spec_convert_text(t, nodes, bound, i, tx, ts, opts, m),
        }
    }
}

/// Convert a group (§ compositor): plain groups bracket their children in
/// the graphics-state stack; opacity or a mask wraps them in a transparency
/// group with a graphics state; a filter replaces the subtree by a
/// rasterized image over its bounding box.
pub open spec fn spec_convert_group(
    t: Tree,
    nodes: Seq<Node>,
    bound: int,
    i: int,
    g: Group,
    ts: Transform,
    opts: ConversionOptions,
    m: CtxModel,
) -> StepOut
    decreases bound, nodes.len() - i, 2int, 1int,
{
    if bound < 0 || !(0 <= i < nodes.len()) {
        step_err(m, ConversionError::UnknownError)
    } else if g.filter {
        spec_convert_filter(nodes, i, ts, opts, m)
    } else {
        let ts_new = ts.spec_concat(g.transform);
        let clip_ops = match g.clip {
            Some(c) => spec_clip_chain_ops(t.defs@, c as int),
            None => Seq::empty(),
        };
        let alpha = effective_opacity(g.opacity);
        if alpha is None && g.mask is None {
            let inner = spec_convert_list(
                t,
                nodes,
                bound,
                i,
                g.children@,
                g.children@.len() as int,
                ts_new,
                opts,
                m,
            );
            let base = seq![Op::Save, Op::Concat(g.transform)] + clip_ops + inner.ops;
            StepOut {
                events: inner.events,
                ops: if inner.err is Some {
                    base
                } else {
                    base + seq![Op::Restore]
                },
                ctx: inner.ctx,
                err: inner.err,
            }
        } else {
            spec_convert_group_wrapped(t, nodes, bound, i, g, ts, opts, m)
        }
    }
}

/// The transparency-group case of a group: children converted into a
/// wrapped XObject with its own resource scope, composited through a
/// graphics state carrying the group alpha and, if present, the soft mask.
pub open spec fn spec_convert_group_wrapped(
    t: Tree,
    nodes: Seq<Node>,
    bound: int,
    i: int,
    g: Group,
    ts: Transform,
    opts: ConversionOptions,
    m: CtxModel,
) -> StepOut
    decreases bound, nodes.len() - i, 2int, 0int,
{
    if bound < 0 || !(0 <= i < nodes.len()) {
        step_err(m, ConversionError::UnknownError)
    } else {
        let ts_new = ts.spec_concat(g.transform);
        let clip_ops = match g.clip {
            Some(c) => spec_clip_chain_ops(t.defs@, c as int),
            None => Seq::empty(),
        };
        let alpha = effective_opacity(g.opacity);
        {
            let m0 = spec_push_scope(m);
            let inner = spec_convert_list(
                t,
                nodes,
                bound,
                i,
                g.children@,
                g.children@.len() as int,
                ts_new,
                opts,
                m0,
            );
            if inner.err is Some {
                StepOut { events: inner.events, ops: Seq::empty(), ctx: inner.ctx, err: inner.err }
            } else {
                let (dict, m2) = spec_pop_scope(inner.ctx);
                let (xid, m3) = spec_allocate(m2);
                let bb = match spec_list_bbox(
                    nodes,
                    i,
                    g.children@,
                    g.children@.len() as int,
                    Transform::spec_identity(),
                ) {
                    Some(b) => b,
                    None => BBox { x0: 0, y0: 0, x1: 0, y1: 0 },
                };
                let a = match alpha {
                    Some(v) => v,
                    None => FX_ONE,
                };
                match g.mask {
                    None => {
                        let (gsid, m4) = spec_allocate(m3);
                        let (gname, m5) = spec_register(m4, ResKind::ExtGState, gsid);
                        let (xname, m6) = spec_register(m5, ResKind::XObject, xid);
                        StepOut {
                            events: inner.events + seq![Event::AlphaState { id: gsid, alpha: a }]
                                + spec_block(
                                Event::BeginXObject {
                                    id: xid,
                                    kind: XObjectKind::Transparency,
                                    bbox: bb,
                                },
                                clip_ops + inner.ops,
                                dict,
                            ),
                            ops: seq![
                                Op::Save,
                                Op::Concat(g.transform),
                                Op::SetExtGState { name: gname },
                                Op::DrawXObject { name: xname },
                                Op::Restore,
                            ],
                            ctx: m6,
                            err: None,
                        }
                    },
                    Some(mk) => {
                        if mk < bound {
                            let (mso, gsid) = spec_convert_mask(t, mk as int, ts_new, a, opts, m3);
                            if mso.err is Some {
                                StepOut {
                                    events: inner.events + mso.events,
                                    ops: Seq::empty(),
                                    ctx: mso.ctx,
                                    err: mso.err,
                                }
                            } else {
                                let (gname, m5) = spec_register(mso.ctx, ResKind::ExtGState, gsid);
                                let (xname, m6) = spec_register(m5, ResKind::XObject, xid);
                                StepOut {
                                    events: inner.events + mso.events + spec_block(
                                        Event::BeginXObject {
                                            id: xid,
                                            kind: XObjectKind::Transparency,
                                            bbox: bb,
                                        },
                                        clip_ops + inner.ops,
                                        dict,
                                    ),
                                    ops: seq![
                                        Op::Save,
                                        Op::Concat(g.transform),
                                        Op::SetExtGState { name: gname },
                                        Op::DrawXObject { name: xname },
                                        Op::Restore,
                                    ],
                                    ctx: m6,
                                    err: None,
                                }
                            }
                        } else {
                            StepOut {
                                events: inner.events,
                                ops: Seq::empty(),
                                ctx: m3,
                                err: Some(ConversionError::UnknownError),
                            }
                        }
                    },
                }
            }
        }
    }
}

/// The filter fallback (§ filter rasterizer): one image object whose pixel
/// buffer is the device-space hull scaled by the raster-scale option,
/// placed over the hull; a degenerate hull contributes nothing.
pub open spec fn spec_convert_filter(
    nodes: Seq<Node>,
    i: int,
    ts: Transform,
    opts: ConversionOptions,
    m: CtxModel,
) -> StepOut {
    let dev = spec_node_bbox(nodes, i, ts);
    let loc = spec_node_bbox(nodes, i, Transform::spec_identity());
    match (dev, loc) {
        (Some(db), Some(lb)) => {
            let wpx = spec_fx_ceil_units(
                spec_fx_mul(spec_fx_sub(db.x1, db.x0), opts.raster_scale),
            );
            let hpx = spec_fx_ceil_units(
                spec_fx_mul(spec_fx_sub(db.y1, db.y0), opts.raster_scale),
            );
            if wpx == 0 || hpx == 0 {
                step_ok(m)
            } else {
                let (id, m1) = spec_allocate(m);
                let (name, m2) = spec_register(m1, ResKind::XObject, id);
                StepOut {
                    events: seq![Event::FilterImage { id, width_px: wpx, height_px: hpx }],
                    ops: seq![
                        Op::Save,
                        Op::Concat(
                            Transform {
                                a: spec_fx_sub(lb.x1, lb.x0),
                                b: 0,
                                c: 0,
                                d: spec_fx_sub(lb.y1, lb.y0),
                                e: lb.x0,
                                f: lb.y0,
                            },
                        ),
                        Op::DrawXObject { name },
                        Op::Restore,
                    ],
                    ctx: m2,
                    err: None,
                }
            }
        },
        _ => step_ok(m),
    }
}

/// One fill pass of a path: alpha state, paint, geometry, fill operator,
/// bracketed; nothing for a transparent paint.
pub open spec fn spec_fill_pass(
    t: Tree,
    bound: int,
    f: Fill,
    segments: Seq<Segment>,
    ts_new: Transform,
    local_bb: Option<BBox>,
    opts: ConversionOptions,
    m: CtxModel,
) -> StepOut
    decreases bound, 1int, 0int, 0int,
{
    if bound < 0 {
        step_err(m, ConversionError::UnknownError)
    } else {
        let al = spec_setup_alpha(f.opacity, m);
        let pr = spec_resolve_paint(t, bound, f.paint, ts_new, local_bb, false, opts, al.ctx);
        if pr.err is Some {
            StepOut { events: al.events + pr.events, ops: Seq::empty(), ctx: pr.ctx, err: pr.err }
        } else if pr.painted {
            StepOut {
                events: al.events + pr.events,
                ops: seq![Op::Save] + al.ops + pr.ops + segment_ops(segments) + seq![
                    Op::FillPath { rule: f.rule },
                    Op::Restore,
                ],
                ctx: pr.ctx,
                err: None,
            }
        } else {
            StepOut { events: al.events + pr.events, ops: Seq::empty(), ctx: pr.ctx, err: None }
        }
    }
}

/// One stroke pass of a path, like the fill pass with a line width.
pub open spec fn spec_stroke_pass(
    t: Tree,
    bound: int,
    st: Stroke,
    segments: Seq<Segment>,
    ts_new: Transform,
    local_bb: Option<BBox>,
    opts: ConversionOptions,
    m: CtxModel,
) -> StepOut
    decreases bound, 1int, 0int, 0int,
{
    if bound < 0 {
        step_err(m, ConversionError::UnknownError)
    } else {
        let al = spec_setup_alpha(st.opacity, m);
        let pr = spec_resolve_paint(t, bound, st.paint, ts_new, local_bb, true, opts, al.ctx);
        if pr.err is Some {
            StepOut { events: al.events + pr.events, ops: Seq::empty(), ctx: pr.ctx, err: pr.err }
        } else if pr.painted {
            StepOut {
                events: al.events + pr.events,
                ops: seq![Op::Save] + al.ops + pr.ops + seq![Op::SetLineWidth { width: st.width }]
                    + segment_ops(segments) + seq![Op::StrokePath, Op::Restore],
                ctx: pr.ctx,
                err: None,
            }
        } else {
            StepOut { events: al.events + pr.events, ops: Seq::empty(), ctx: pr.ctx, err: None }
        }
    }
}

/// Both painting passes of a path: fill first, stroke afterwards.
pub open spec fn spec_path_passes(
    t: Tree,
    bound: int,
    fill: Option<Fill>,
    stroke: Option<Stroke>,
    segments: Seq<Segment>,
    ts_new: Transform,
    local_bb: Option<BBox>,
    opts: ConversionOptions,
    m: CtxModel,
) -> StepOut
    decreases bound, 1int, 1int, 0int,
{
    if bound < 0 {
        step_err(m, ConversionError::UnknownError)
    } else {
        let fill_res = match fill {
            Some(f) => spec_fill_pass(t, bound, f, segments, ts_new, local_bb, opts, m),
            None => step_ok(m),
        };
        if fill_res.err is Some {
            fill_res
        } else {
            let stroke_res = match stroke {
                Some(st) => spec_stroke_pass(
                    t,
                    bound,
                    st,
                    segments,
                    ts_new,
                    local_bb,
                    opts,
                    fill_res.ctx,
                ),
                None => step_ok(fill_res.ctx),
            };
            StepOut {
                events: fill_res.events + stroke_res.events,
                ops: fill_res.ops + stroke_res.ops,
                ctx: stroke_res.ctx,
                err: stroke_res.err,
            }
        }
    }
}

/// Convert a path (§ tree walker, path nodes): resolve the fill and the
/// stroke paint, then paint each in its own bracketed pass.
pub open spec fn spec_convert_path(
    t: Tree,
    nodes: Seq<Node>,
    bound: int,
    i: int,
    p: PathNode,
    ts: Transform,
    opts: ConversionOptions,
    m: CtxModel,
) -> StepOut
    decreases bound, nodes.len() - i, 2int, 1int,
{
    if bound < 0 || !(0 <= i < nodes.len()) {
        step_err(m, ConversionError::UnknownError)
    } else {
        let ts_new = ts.spec_concat(p.transform);
        let local_bb = spec_segments_bbox(None, p.segments@, Transform::spec_identity());
        let pp = spec_path_passes(t, bound, p.fill, p.stroke, p.segments@, ts_new, local_bb, opts, m);
        StepOut {
            events: pp.events,
            ops: seq![Op::Save, Op::Concat(p.transform)] + pp.ops + (if pp.err is Some {
                Seq::empty()
            } else {
                seq![Op::Restore]
            }),
            ctx: pp.ctx,
            err: pp.err,
        }
    }
}

/// What a fill or stroke paints with (§ paint translator); the extra error
/// field covers pattern content that fails to convert.  `painted` is false
/// for the transparent fallback of an empty gradient.
#[verifier::ext_equal]
pub struct ResolveOut {
    pub events: Seq<Event>,
    pub ops: Seq<Op>,
    pub ctx: CtxModel,
    pub painted: bool,
    pub err: Option<ConversionError>,
}

/// Resolve the paint at `paint` under the accumulated transform `ts_new`
/// and the geometry hull `local_bb` (for bounding-box gradient units).
#[verifier::opaque]
pub open spec fn spec_resolve_paint(
    t: Tree,
    bound: int,
    paint: usize,
    ts_new: Transform,
    local_bb: Option<BBox>,
    for_stroke: bool,
    opts: ConversionOptions,
    m: CtxModel,
) -> ResolveOut
    decreases bound, 0int, 0int, 0int,
{
    if bound < 0 || paint >= t.paints@.len() {
        ResolveOut {
            events: Seq::empty(),
            ops: Seq::empty(),
            ctx: m,
            painted: false,
            err: Some(ConversionError::UnknownError),
        }
    } else {
        match t.paints@[paint as int] {
            Paint::Solid(c) => {
                let po = spec_setup_solid(c, for_stroke, m);
                ResolveOut {
                    events: po.events,
                    ops: po.ops,
                    ctx: po.ctx,
                    painted: po.painted,
                    err: None,
                }
            },
            Paint::Linear(lg) => {
                let eff = ts_new.spec_concat(
                    spec_bbox_map(lg.units, local_bb).spec_concat(lg.transform),
                );
                let po = spec_setup_gradient(
                    paint,
                    lg.stops@,
                    ShadingKind::Linear { x1: lg.x1, y1: lg.y1, x2: lg.x2, y2: lg.y2 },
                    eff,
                    for_stroke,
                    m,
                );
                ResolveOut {
                    events: po.events,
                    ops: po.ops,
                    ctx: po.ctx,
                    painted: po.painted,
                    err: None,
                }
            },
            Paint::Radial(rg) => {
                let eff = ts_new.spec_concat(
                    spec_bbox_map(rg.units, local_bb).spec_concat(rg.transform),
                );
                let po = spec_setup_gradient(
                    paint,
                    rg.stops@,
                    ShadingKind::Radial { cx: rg.cx, cy: rg.cy, r: rg.r },
                    eff,
                    for_stroke,
                    m,
                );
                ResolveOut {
                    events: po.events,
                    ops: po.ops,
                    ctx: po.ctx,
                    painted: po.painted,
                    err: None,
                }
            },
            Paint::Pattern(d) => {
                if d < bound && t.defs@[d as int] is Pattern {
                    let (so, pid) = spec_convert_pattern(t, d as int, ts_new, opts, m);
                    if so.err is Some {
                        ResolveOut {
                            events: so.events,
                            ops: Seq::empty(),
                            ctx: so.ctx,
                            painted: false,
                            err: so.err,
                        }
                    } else {
                        let (name, m2) = spec_register(so.ctx, ResKind::Pattern, pid);
                        ResolveOut {
                            events: so.events,
                            ops: seq![
                                if for_stroke {
                                    Op::SetStrokePattern { name }
                                } else {
                                    Op::SetFillPattern { name }
                                },
                            ],
                            ctx: m2,
                            painted: true,
                            err: None,
                        }
                    }
                } else {
                    ResolveOut {
                        events: Seq::empty(),
                        ops: Seq::empty(),
                        ctx: m,
                        painted: false,
                        err: Some(ConversionError::UnknownError),
                    }
                }
            },
        }
    }
}

/// Convert a tiling pattern (§ paint translator, patterns): its tile
/// content becomes a pattern block with its own resource scope, written
/// once per `(definition, matrix)` key.
#[verifier::opaque]
pub open spec fn spec_convert_pattern(
    t: Tree,
    d: int,
    ts_new: Transform,
    opts: ConversionOptions,
    m: CtxModel,
) -> (StepOut, u64)
    decreases d, def_content_len(t.defs@, d) + 2, 0int, 0int,
{
    if !(0 <= d < t.defs@.len()) {
        (step_err(m, ConversionError::UnknownError), 0)
    } else {
        match t.defs@[d] {
            Def::Pattern(pd) => {
                let eff = ts_new.spec_concat(pd.transform);
                let (pid, fresh, m1) = spec_get_or_create(
                    m,
                    ResKey::PatternAt { def: d as usize, matrix: eff },
                );
                if !fresh {
                    (step_ok(m1), pid)
                } else {
                    let m2 = spec_push_scope(m1);
                    let inner = spec_convert_list(
                        t,
                        pd.nodes@,
                        d,
                        -1,
                        pd.roots@,
                        pd.roots@.len() as int,
                        eff,
                        opts,
                        m2,
                    );
                    if inner.err is Some {
                        (
                            StepOut {
                                events: inner.events,
                                ops: Seq::empty(),
                                ctx: inner.ctx,
                                err: inner.err,
                            },
                            pid,
                        )
                    } else {
                        let (dict, m3) = spec_pop_scope(inner.ctx);
                        (
                            StepOut {
                                events: inner.events + spec_block(
                                    Event::BeginPattern {
                                        id: pid,
                                        width: pd.width,
                                        height: pd.height,
                                        matrix: eff,
                                    },
                                    inner.ops,
                                    dict,
                                ),
                                ops: Seq::empty(),
                                ctx: m3,
                                err: None,
                            },
                            pid,
                        )
                    }
                }
            },
            _ => (step_err(m, ConversionError::UnknownError), 0),
        }
    }
}

/// Convert a mask (§ compositor): its content becomes an independent
/// soft-mask group with its own resource scope, and one graphics state
/// carrying the group alpha and the mask reference.  Returns the graphics
/// state's identity.
#[verifier::opaque]
pub open spec fn spec_convert_mask(
    t: Tree,
    mk: int,
    ts_new: Transform,
    alpha: i64,
    opts: ConversionOptions,
    m: CtxModel,
) -> (StepOut, u64)
    decreases mk, def_content_len(t.defs@, mk) + 2, 0int, 0int,
{
    if !(0 <= mk < t.defs@.len()) {
        (step_err(m, ConversionError::UnknownError), 0)
    } else {
        match t.defs@[mk] {
            Def::Mask(md) => {
                let m0 = spec_push_scope(m);
                let inner = spec_convert_list(
                    t,
                    md.nodes@,
                    mk,
                    -1,
                    md.roots@,
                    md.roots@.len() as int,
                    ts_new,
                    opts,
                    m0,
                );
                if inner.err is Some {
                    (
                        StepOut {
                            events: inner.events,
                            ops: Seq::empty(),
                            ctx: inner.ctx,
                            err: inner.err,
                        },
                        0,
                    )
                } else {
                    let (dict, m2) = spec_pop_scope(inner.ctx);
                    let (mid, m3) = spec_allocate(m2);
                    let bb = match spec_list_bbox(
                        md.nodes@,
                        -1,
                        md.roots@,
                        md.roots@.len() as int,
                        Transform::spec_identity(),
                    ) {
                        Some(b) => b,
                        None => BBox { x0: 0, y0: 0, x1: 0, y1: 0 },
                    };
                    let (kindx, m4) = match md.kind {
                        MaskKind::Luminosity => {
                            let (gicc, fresh, m4) = spec_get_or_create(
                                m3,
                                ResKey::Icc(IccKind::Gray),
                            );
                            (XObjectKind::LuminosityMask { gray_icc: gicc }, m4)
                        },
                        MaskKind::Alpha => (XObjectKind::AlphaMask, m3),
                    };
                    let (gsid, m5) = spec_allocate(m4);
                    (
                        StepOut {
                            events: inner.events + spec_block(
                                Event::BeginXObject { id: mid, kind: kindx, bbox: bb },
                                inner.ops,
                                dict,
                            ) + seq![Event::SoftMaskState { id: gsid, alpha, mask: mid }],
                            ops: Seq::empty(),
                            ctx: m5,
                            err: None,
                        },
                        gsid,
                    )
                }
            },
            _ => (step_err(m, ConversionError::UnknownError), 0),
        }
    }
}

/// Convert a text node (§ text encoder): embedded text shows glyphs against
/// a subset font written at the end of the conversion; otherwise, or when
/// the font cannot be read, the node's outlined fallback content is walked
/// instead (a per-node degradation, never a failure).
pub open spec fn spec_convert_text(
    t: Tree,
    nodes: Seq<Node>,
    bound: int,
    i: int,
    tx: TextNode,
    ts: Transform,
    opts: ConversionOptions,
    m: CtxModel,
) -> StepOut
    decreases bound, nodes.len() - i, 2int, 1int,
{
    if bound < 0 || !(0 <= i < nodes.len()) {
        step_err(m, ConversionError::UnknownError)
    } else if tx.font >= t.fonts@.len() {
        step_err(m, ConversionError::UnknownError)
    } else if opts.embed_text && t.fonts@[tx.font as int].readable {
        let (fid, fresh, m1) = spec_get_or_create(m, ResKey::FontRes(tx.font));
        let (fname, m2) = spec_register(m1, ResKind::Font, fid);
        let ps = spec_setup_solid(tx.fill, false, m2);
        let (gops, m3) = spec_show_glyphs(tx.font, tx.glyphs@, tx.glyphs@.len() as int, ps.ctx);
        StepOut {
            events: ps.events,
            ops: seq![Op::Save, Op::Concat(tx.transform)] + ps.ops + seq![
                Op::BeginText,
                Op::SetFont { name: fname, size: tx.size },
            ] + gops + seq![Op::EndText, Op::Restore],
            ctx: m3,
            err: None,
        }
    } else {
        let inner = spec_convert_list(
            t,
            nodes,
            bound,
            i,
            tx.fallback@,
            tx.fallback@.len() as int,
            ts.spec_concat(tx.transform),
            opts,
            m,
        );
        let base = seq![Op::Save, Op::Concat(tx.transform)] + inner.ops;
        StepOut {
            events: inner.events,
            ops: if inner.err is Some {
                base
            } else {
                base + seq![Op::Restore]
            },
            ctx: inner.ctx,
            err: inner.err,
        }
    }
}


// ---------------------------------------------------------------------------
// The recursive walker, executable side.
// ---------------------------------------------------------------------------

/// Every node's children lie strictly above it (follows from the arena
/// invariant; the form the hull walk needs).
proof fn lemma_children_above(t: Tree, nodes: Seq<Node>, bound: int)
    requires
        arena_ok(t, nodes, bound),
    ensures
        forall|ii: int|
            0 <= ii < nodes.len() ==> node_children_above(
                #[trigger] nodes[ii],
                ii,
                nodes.len() as int,
            ),
{
    assert forall|ii: int|
        0 <= ii < nodes.len() implies node_children_above(
        nodes[ii],
        ii,
        nodes.len() as int,
    ) by {
        assert(wf_node(
            nodes[ii],
            ii,
            nodes.len() as int,
            bound,
            t.defs@,
            t.paints@,
            t.fonts@.len() as int,
            t.images@.len() as int,
        ));
    }
}

fn bbox_map(units: GradientUnits, bb: Option<BBox>) -> (r: Transform)
    ensures
        r == spec_bbox_map(units, bb),
{
    match units {
        GradientUnits::UserSpace => Transform::identity(),
        GradientUnits::ObjectBoundingBox => match bb {
            Some(b) => Transform {
                a: fx_sub(b.x1, b.x0),
                b: 0,
                c: 0,
                d: fx_sub(b.y1, b.y0),
                e: b.x0,
                f: b.y0,
            },
            None => Transform::identity(),
        },
    }
}

pub(crate) fn convert_list(
    tree: &Tree,
    nodes: &Vec<Node>,
    bound: usize,
    Ghost(parent): Ghost<int>,
    kids: &Vec<usize>,
    ts: &Transform,
    opts: &ConversionOptions,
    ctx: &mut Ctx,
    out: &mut Vec<Event>,
    ops: &mut Vec<Op>,
) -> (r: Result<(), ConversionError>)
    requires
        arena_ok(*tree, nodes@, bound as int),
        parent >= -1,
        forall|j: int|
            0 <= j < kids@.len() ==> parent < (#[trigger] kids@[j]) as int && (kids@[j] as int)
                < nodes@.len(),
        old(ctx)@.scopes.len() > 0,
    ensures
        final(ctx)@ == spec_convert_list(
            *tree,
            nodes@,
            bound as int,
            parent,
            kids@,
            kids@.len() as int,
            *ts,
            *opts,
            old(ctx)@,
        ).ctx,
        final(out)@ == old(out)@ + spec_convert_list(
            *tree,
            nodes@,
            bound as int,
            parent,
            kids@,
            kids@.len() as int,
            *ts,
            *opts,
            old(ctx)@,
        ).events,
        final(ops)@ == old(ops)@ + spec_convert_list(
            *tree,
            nodes@,
            bound as int,
            parent,
            kids@,
            kids@.len() as int,
            *ts,
            *opts,
            old(ctx)@,
        ).ops,
        r matches Ok(()) <==> spec_convert_list(
            *tree,
            nodes@,
            bound as int,
            parent,
            kids@,
            kids@.len() as int,
            *ts,
            *opts,
            old(ctx)@,
        ).err is None,
        r matches Err(e) ==> spec_convert_list(
            *tree,
            nodes@,
            bound as int,
            parent,
            kids@,
            kids@.len() as int,
            *ts,
            *opts,
            old(ctx)@,
        ).err == Some(e),
        forall|jj: int|
            old(out)@.len() <= jj < final(out)@.len() ==> !(#[trigger] final(out)@[jj] is IccProfile),
        cache_keys_distinct(old(ctx)@.cache) ==> cache_keys_distinct(final(ctx)@.cache),
        r matches Ok(()) ==> final(ctx)@.scopes.len() == old(ctx)@.scopes.len(),
    decreases bound, nodes@.len() - parent, 1int, 0int,
{
    let mut err: Option<ConversionError> = None;
    let mut j: usize = 0;
    while j < kids.len()
        invariant
            j <= kids.len(),
            arena_ok(*tree, nodes@, bound as int),
            parent >= -1,
            forall|jx: int|
                0 <= jx < kids@.len() ==> parent < (#[trigger] kids@[jx]) as int && (
                kids@[jx] as int) < nodes@.len(),
            old(ctx)@.scopes.len() > 0,
            ctx@ == spec_convert_list(
                *tree,
                nodes@,
                bound as int,
                parent,
                kids@,
                j as int,
                *ts,
                *opts,
                old(ctx)@,
            ).ctx,
            out@ == old(out)@ + spec_convert_list(
                *tree,
                nodes@,
                bound as int,
                parent,
                kids@,
                j as int,
                *ts,
                *opts,
                old(ctx)@,
            ).events,
            ops@ == old(ops)@ + spec_convert_list(
                *tree,
                nodes@,
                bound as int,
                parent,
                kids@,
                j as int,
                *ts,
                *opts,
                old(ctx)@,
            ).ops,
            match err {
                None => spec_convert_list(
                    *tree,
                    nodes@,
                    bound as int,
                    parent,
                    kids@,
                    j as int,
                    *ts,
                    *opts,
                    old(ctx)@,
                ).err is None,
                Some(e) => spec_convert_list(
                    *tree,
                    nodes@,
                    bound as int,
                    parent,
                    kids@,
                    j as int,
                    *ts,
                    *opts,
                    old(ctx)@,
                ).err == Some(e),
            },
            forall|jj: int|
                old(out)@.len() <= jj < out@.len() ==> !(#[trigger] out@[jj] is IccProfile),
            cache_keys_distinct(old(ctx)@.cache) ==> cache_keys_distinct(ctx@.cache),
            err is None ==> ctx@.scopes.len() == old(ctx)@.scopes.len(),
        decreases kids.len() - j,
    {
        if err.is_none() {
            let ghost so_j = spec_convert_list(
                *tree,
                nodes@,
                bound as int,
                parent,
                kids@,
                j as int,
                *ts,
                *opts,
                old(ctx)@,
            );
            let ghost out_mid = out@;
            let ghost ops_mid = ops@;
            let k = kids[j];
            let res = convert_node(tree, nodes, bound, k, ts, opts, ctx, out, ops);
            match res {
                Ok(()) => {},
                Err(e) => {
                    err = Some(e);
                },
            }
            proof {
            
                let so_n = spec_convert_node(
                    *tree,
                    nodes@,
                    bound as int,
                    k as int,
                    *ts,
                    *opts,
                    so_j.ctx,
                );
                assert(out@ =~= old(out)@ + (so_j.events + so_n.events));
                assert(ops@ =~= old(ops)@ + (so_j.ops + so_n.ops));
                assert forall|jj: int|
                    old(out)@.len() <= jj < out@.len() implies !((#[trigger] out@[jj]) is IccProfile) by {
                    if jj < out_mid.len() {
                        assert(out@[jj] == out_mid[jj]);
                    }
                }
            }
        }
        j = j + 1;
    }
    match err {
        None => Ok(()),
        Some(e) => Err(e),
    }
}

pub(crate) fn convert_node(
    tree: &Tree,
    nodes: &Vec<Node>,
    bound: usize,
    i: usize,
    ts: &Transform,
    opts: &ConversionOptions,
    ctx: &mut Ctx,
    out: &mut Vec<Event>,
    ops: &mut Vec<Op>,
) -> (r: Result<(), ConversionError>)
    requires
        arena_ok(*tree, nodes@, bound as int),
        i < nodes@.len(),
        old(ctx)@.scopes.len() > 0,
    ensures
        final(ctx)@ == spec_convert_node(
            *tree,
            nodes@,
            bound as int,
            i as int,
            *ts,
            *opts,
            old(ctx)@,
        ).ctx,
        final(out)@ == old(out)@ + spec_convert_node(
            *tree,
            nodes@,
            bound as int,
            i as int,
            *ts,
            *opts,
            old(ctx)@,
        ).events,
        final(ops)@ == old(ops)@ + spec_convert_node(
            *tree,
            nodes@,
            bound as int,
            i as int,
            *ts,
            *opts,
            old(ctx)@,
        ).ops,
        r matches Ok(()) <==> spec_convert_node(
            *tree,
            nodes@,
            bound as int,
            i as int,
            *ts,
            *opts,
            old(ctx)@,
        ).err is None,
        r matches Err(e) ==> spec_convert_node(
            *tree,
            nodes@,
            bound as int,
            i as int,
            *ts,
            *opts,
            old(ctx)@,
        ).err == Some(e),
        forall|jj: int|
            old(out)@.len() <= jj < final(out)@.len() ==> !(#[trigger] final(out)@[jj] is IccProfile),
        cache_keys_distinct(old(ctx)@.cache) ==> cache_keys_distinct(final(ctx)@.cache),
        r matches Ok(()) ==> final(ctx)@.scopes.len() == old(ctx)@.scopes.len(),
    decreases bound, nodes@.len() - i, 3int, 0int,
{
    proof {
            
        assert(wf_node(
            nodes@[i as int],
            i as int,
            nodes@.len() as int,
            bound as int,
            tree.defs@,
            tree.paints@,
            tree.fonts@.len() as int,
            tree.images@.len() as int,
        ));
    }
    match &nodes[i] {
        Node::Group(g) => convert_group(tree, nodes, bound, i, g, ts, opts, ctx, out, ops),
        Node::Path(p) => convert_path(tree, nodes, bound, i, p, ts, opts, ctx, out, ops),
        Node::Image(im) => convert_image(tree, im, ctx, out, ops),
        Node::Text(tx) => convert_text(tree, nodes, bound, i, tx, ts, opts, ctx, out, ops),
    }
}

#[verifier::rlimit(100)]
#[verifier::spinoff_prover]
fn convert_group(
    tree: &Tree,
    nodes: &Vec<Node>,
    bound: usize,
    i: usize,
    g: &Group,
    ts: &Transform,
    opts: &ConversionOptions,
    ctx: &mut Ctx,
    out: &mut Vec<Event>,
    ops: &mut Vec<Op>,
) -> (r: Result<(), ConversionError>)
    requires
        arena_ok(*tree, nodes@, bound as int),
        i < nodes@.len(),
        nodes@[i as int] == Node::Group(*g),
        old(ctx)@.scopes.len() > 0,
    ensures
        final(ctx)@ == spec_convert_group(
            *tree,
            nodes@,
            bound as int,
            i as int,
            *g,
            *ts,
            *opts,
            old(ctx)@,
        ).ctx,
        final(out)@ == old(out)@ + spec_convert_group(
            *tree,
            nodes@,
            bound as int,
            i as int,
            *g,
            *ts,
            *opts,
            old(ctx)@,
        ).events,
        final(ops)@ == old(ops)@ + spec_convert_group(
            *tree,
            nodes@,
            bound as int,
            i as int,
            *g,
            *ts,
            *opts,
            old(ctx)@,
        ).ops,
        r matches Ok(()) <==> spec_convert_group(
            *tree,
            nodes@,
            bound as int,
            i as int,
            *g,
            *ts,
            *opts,
            old(ctx)@,
        ).err is None,
        r matches Err(e) ==> spec_convert_group(
            *tree,
            nodes@,
            bound as int,
            i as int,
            *g,
            *ts,
            *opts,
            old(ctx)@,
        ).err == Some(e),
        forall|jj: int|
            old(out)@.len() <= jj < final(out)@.len() ==> !(#[trigger] final(out)@[jj] is IccProfile),
        cache_keys_distinct(old(ctx)@.cache) ==> cache_keys_distinct(final(ctx)@.cache),
        r matches Ok(()) ==> final(ctx)@.scopes.len() == old(ctx)@.scopes.len(),
    decreases bound, nodes@.len() - i, 2int, 1int,
{
    proof {
            
        assert(wf_node(
            nodes@[i as int],
            i as int,
            nodes@.len() as int,
            bound as int,
            tree.defs@,
            tree.paints@,
            tree.fonts@.len() as int,
            tree.images@.len() as int,
        ));
    }
    if g.filter {
        proof {
            
            lemma_children_above(*tree, nodes@, bound as int);
        }
        let dev = node_bbox(nodes, i, ts);
        let ident = Transform::identity();
        let loc = node_bbox(nodes, i, &ident);
        match (dev, loc) {
            (Some(db), Some(lb)) => {
                let wpx = fx_ceil_units(fx_mul(fx_sub(db.x1, db.x0), opts.raster_scale));
                let hpx = fx_ceil_units(fx_mul(fx_sub(db.y1, db.y0), opts.raster_scale));
                if wpx == 0 || hpx == 0 {
                    proof {
            
                        assert(final(out)@ =~= old(out)@ + Seq::<Event>::empty());
                        assert(final(ops)@ =~= old(ops)@ + Seq::<Op>::empty());
                    }
                    return Ok(());
                }
                let id = ctx.allocate();
                let name = ctx.register(ResKind::XObject, id);
                out.push(Event::FilterImage { id, width_px: wpx, height_px: hpx });
                ops.push(Op::Save);
                ops.push(
                    Op::Concat(
                        Transform {
                            a: fx_sub(lb.x1, lb.x0),
                            b: 0,
                            c: 0,
                            d: fx_sub(lb.y1, lb.y0),
                            e: lb.x0,
                            f: lb.y0,
                        },
                    ),
                );
                ops.push(Op::DrawXObject { name });
                ops.push(Op::Restore);
                proof {
            
                    let so = spec_convert_group(
                        *tree,
                        nodes@,
                        bound as int,
                        i as int,
                        *g,
                        *ts,
                        *opts,
                        old(ctx)@,
                    );
                    assert(final(out)@ =~= old(out)@ + so.events);
                    assert(final(ops)@ =~= old(ops)@ + so.ops);
                }
                Ok(())
            },
            _ => {
                proof {
            
                    assert(final(out)@ =~= old(out)@ + Seq::<Event>::empty());
                    assert(final(ops)@ =~= old(ops)@ + Seq::<Op>::empty());
                }
                Ok(())
            },
        }
    } else {
        let ts_new = ts.concat(&g.transform);
        let alpha_eff: Option<i64> = match g.opacity {
            Some(v) => if v == FX_ONE {
                None
            } else {
                Some(v)
            },
            None => None,
        };
        if alpha_eff.is_none() && g.mask.is_none() {
            ops.push(Op::Save);
            ops.push(Op::Concat(g.transform));
            match g.clip {
                Some(c) => {
                    push_clip_chain_ops(tree, c, ops);
                },
                None => {},
            }
            let ghost ops_mid = ops@;
            let res = convert_list(
                tree,
                nodes,
                bound,
                Ghost(i as int),
                &g.children,
                &ts_new,
                opts,
                ctx,
                out,
                ops,
            );
            let ghost so = spec_convert_group(
                *tree,
                nodes@,
                bound as int,
                i as int,
                *g,
                *ts,
                *opts,
                old(ctx)@,
            );
            match res {
                Err(e) => {
                    proof {
            
                        assert(final(ops)@ =~= old(ops)@ + so.ops);
                    }
                    Err(e)
                },
                Ok(()) => {
                    ops.push(Op::Restore);
                    proof {
            
                        assert(final(ops)@ =~= old(ops)@ + so.ops);
                    }
                    Ok(())
                },
            }
        } else {
            convert_group_wrapped(tree, nodes, bound, i, g, ts, opts, ctx, out, ops)
        }
    }
}

#[verifier::rlimit(100)]
#[verifier::spinoff_prover]
fn convert_group_wrapped(
    tree: &Tree,
    nodes: &Vec<Node>,
    bound: usize,
    i: usize,
    g: &Group,
    ts: &Transform,
    opts: &ConversionOptions,
    ctx: &mut Ctx,
    out: &mut Vec<Event>,
    ops: &mut Vec<Op>,
) -> (r: Result<(), ConversionError>)
    requires
        arena_ok(*tree, nodes@, bound as int),
        i < nodes@.len(),
        nodes@[i as int] == Node::Group(*g),
        !(effective_opacity(g.opacity) is None && g.mask is None),
        !g.filter,
        old(ctx)@.scopes.len() > 0,
    ensures
        final(ctx)@ == spec_convert_group_wrapped(
            *tree,
            nodes@,
            bound as int,
            i as int,
            *g,
            *ts,
            *opts,
            old(ctx)@,
        ).ctx,
        final(out)@ == old(out)@ + spec_convert_group_wrapped(
            *tree,
            nodes@,
            bound as int,
            i as int,
            *g,
            *ts,
            *opts,
            old(ctx)@,
        ).events,
        final(ops)@ == old(ops)@ + spec_convert_group_wrapped(
            *tree,
            nodes@,
            bound as int,
            i as int,
            *g,
            *ts,
            *opts,
            old(ctx)@,
        ).ops,
        r matches Ok(()) <==> spec_convert_group_wrapped(
            *tree,
            nodes@,
            bound as int,
            i as int,
            *g,
            *ts,
            *opts,
            old(ctx)@,
        ).err is None,
        r matches Err(e) ==> spec_convert_group_wrapped(
            *tree,
            nodes@,
            bound as int,
            i as int,
            *g,
            *ts,
            *opts,
            old(ctx)@,
        ).err == Some(e),
        forall|jj: int|
            old(out)@.len() <= jj < final(out)@.len() ==> !(#[trigger] final(out)@[jj] is IccProfile),
        cache_keys_distinct(old(ctx)@.cache) ==> cache_keys_distinct(final(ctx)@.cache),
        r matches Ok(()) ==> final(ctx)@.scopes.len() == old(ctx)@.scopes.len(),
    decreases bound, nodes@.len() - i, 2int, 0int,
{
    proof {
            
        assert(wf_node(
            nodes@[i as int],
            i as int,
            nodes@.len() as int,
            bound as int,
            tree.defs@,
            tree.paints@,
            tree.fonts@.len() as int,
            tree.images@.len() as int,
        ));
    }
    let ts_new = ts.concat(&g.transform);
    let alpha_eff: Option<i64> = match g.opacity {
        Some(v) => if v == FX_ONE {
            None
        } else {
            Some(v)
        },
        None => None,
    };
    {
            ctx.push_scope();
            let mut body_ops: Vec<Op> = Vec::new();
            match g.clip {
                Some(c) => {
                    push_clip_chain_ops(tree, c, &mut body_ops);
                },
                None => {},
            }
            let ghost clip_len = body_ops@.len();
            let res = convert_list(
                tree,
                nodes,
                bound,
                Ghost(i as int),
                &g.children,
                &ts_new,
                opts,
                ctx,
                out,
                &mut body_ops,
            );
            let ghost so = spec_convert_group_wrapped(
                *tree,
                nodes@,
                bound as int,
                i as int,
                *g,
                *ts,
                *opts,
                old(ctx)@,
            );
            match res {
                Err(e) => {
                    proof {
            
                        assert(final(ops)@ =~= old(ops)@ + so.ops);
                    }
                    return Err(e);
                },
                Ok(()) => {},
            }
            let dict = ctx.pop_scope();
            let xid = ctx.allocate();
            proof {
            
                lemma_children_above(*tree, nodes@, bound as int);
            }
            let ident = Transform::identity();
            let bb = match list_bbox(nodes, Ghost(i as int), &g.children, &ident) {
                Some(b) => b,
                None => BBox { x0: 0, y0: 0, x1: 0, y1: 0 },
            };
            let a: i64 = match alpha_eff {
                Some(v) => v,
                None => FX_ONE,
            };
            let gsid: u64 = match g.mask {
                None => {
                    let gsid = ctx.allocate();
                    out.push(Event::AlphaState { id: gsid, alpha: a });
                    gsid
                },
                Some(mk) => {
                    let mres = convert_mask(tree, mk, &ts_new, a, opts, ctx, out);
                    match mres {
                        Err(e) => {
                            proof {
            
                                assert(final(out)@ =~= old(out)@ + so.events);
                                assert(final(ops)@ =~= old(ops)@ + so.ops);
                            }
                            return Err(e);
                        },
                        Ok(gsid) => gsid,
                    }
                },
            };
            let gname = ctx.register(ResKind::ExtGState, gsid);
            let xname = ctx.register(ResKind::XObject, xid);
            emit_block(
                out,
                Event::BeginXObject { id: xid, kind: XObjectKind::Transparency, bbox: bb },
                &body_ops,
                &dict,
            );
            ops.push(Op::Save);
            ops.push(Op::Concat(g.transform));
            ops.push(Op::SetExtGState { name: gname });
            ops.push(Op::DrawXObject { name: xname });
            ops.push(Op::Restore);
            proof {
            
                assert(final(out)@ =~= old(out)@ + so.events);
                assert(final(ops)@ =~= old(ops)@ + so.ops);
            }
            Ok(())
    }
}

fn convert_mask(
    tree: &Tree,
    mk: usize,
    ts_new: &Transform,
    alpha: i64,
    opts: &ConversionOptions,
    ctx: &mut Ctx,
    out: &mut Vec<Event>,
) -> (r: Result<u64, ConversionError>)
    requires
        wf_shared(*tree),
        mk < tree.defs@.len(),
        tree.defs@[mk as int] is Mask,
    ensures
        final(ctx)@ == spec_convert_mask(
            *tree,
            mk as int,
            *ts_new,
            alpha,
            *opts,
            old(ctx)@,
        ).0.ctx,
        final(out)@ == old(out)@ + spec_convert_mask(
            *tree,
            mk as int,
            *ts_new,
            alpha,
            *opts,
            old(ctx)@,
        ).0.events,
        r matches Ok(gsid) <==> spec_convert_mask(
            *tree,
            mk as int,
            *ts_new,
            alpha,
            *opts,
            old(ctx)@,
        ).0.err is None && (r matches Ok(gsid) ==> gsid == spec_convert_mask(
            *tree,
            mk as int,
            *ts_new,
            alpha,
            *opts,
            old(ctx)@,
        ).1),
        r matches Err(e) ==> spec_convert_mask(
            *tree,
            mk as int,
            *ts_new,
            alpha,
            *opts,
            old(ctx)@,
        ).0.err == Some(e),
        forall|jj: int|
            old(out)@.len() <= jj < final(out)@.len() ==> !(#[trigger] final(out)@[jj] is IccProfile),
        cache_keys_distinct(old(ctx)@.cache) ==> cache_keys_distinct(final(ctx)@.cache),
        r matches Ok(gsid) ==> final(ctx)@.scopes.len() == old(ctx)@.scopes.len(),
    decreases mk, def_content_len(tree.defs@, mk as int) + 2, 0int, 0int,
{
    proof {
        reveal(spec_convert_mask);
    }
    match &tree.defs[mk] {
        Def::Mask(md) => {
            proof {
            
                assert(wf_def(
                    tree.defs@[mk as int],
                    mk as int,
                    tree.defs@,
                    tree.paints@,
                    tree.fonts@.len() as int,
                    tree.images@.len() as int,
                ));
            }
            ctx.push_scope();
            let mut body_ops: Vec<Op> = Vec::new();
            let res = convert_list(
                tree,
                &md.nodes,
                mk,
                Ghost(-1),
                &md.roots,
                ts_new,
                opts,
                ctx,
                out,
                &mut body_ops,
            );
            match res {
                Err(e) => {
                    return Err(e);
                },
                Ok(()) => {},
            }
            let dict = ctx.pop_scope();
            let mid = ctx.allocate();
            proof {
            
                lemma_children_above(*tree, md.nodes@, mk as int);
            }
            let ident = Transform::identity();
            let bb = match list_bbox(&md.nodes, Ghost(-1), &md.roots, &ident) {
                Some(b) => b,
                None => BBox { x0: 0, y0: 0, x1: 0, y1: 0 },
            };
            let kindx = match md.kind {
                MaskKind::Luminosity => {
                    let gi = ctx.get_or_create(ResKey::Icc(IccKind::Gray));
                    XObjectKind::LuminosityMask { gray_icc: gi.0 }
                },
                MaskKind::Alpha => XObjectKind::AlphaMask,
            };
            let gsid = ctx.allocate();
            emit_block(out, Event::BeginXObject { id: mid, kind: kindx, bbox: bb }, &body_ops, &dict);
            out.push(Event::SoftMaskState { id: gsid, alpha, mask: mid });
            proof {
            
                assert(final(out)@ =~= old(out)@ + spec_convert_mask(
                    *tree,
                    mk as int,
                    *ts_new,
                    alpha,
                    *opts,
                    old(ctx)@,
                ).0.events);
            }
            Ok(gsid)
        },
        _ => Err(ConversionError::UnknownError),
    }
}

fn convert_pattern(
    tree: &Tree,
    d: usize,
    ts_new: &Transform,
    opts: &ConversionOptions,
    ctx: &mut Ctx,
    out: &mut Vec<Event>,
) -> (r: Result<u64, ConversionError>)
    requires
        wf_shared(*tree),
        d < tree.defs@.len(),
        tree.defs@[d as int] is Pattern,
    ensures
        final(ctx)@ == spec_convert_pattern(*tree, d as int, *ts_new, *opts, old(ctx)@).0.ctx,
        final(out)@ == old(out)@ + spec_convert_pattern(
            *tree,
            d as int,
            *ts_new,
            *opts,
            old(ctx)@,
        ).0.events,
        r matches Ok(pid) <==> spec_convert_pattern(
            *tree,
            d as int,
            *ts_new,
            *opts,
            old(ctx)@,
        ).0.err is None && (r matches Ok(pid) ==> pid == spec_convert_pattern(
            *tree,
            d as int,
            *ts_new,
            *opts,
            old(ctx)@,
        ).1),
        r matches Err(e) ==> spec_convert_pattern(
            *tree,
            d as int,
            *ts_new,
            *opts,
            old(ctx)@,
        ).0.err == Some(e),
        forall|jj: int|
            old(out)@.len() <= jj < final(out)@.len() ==> !(#[trigger] final(out)@[jj] is IccProfile),
        cache_keys_distinct(old(ctx)@.cache) ==> cache_keys_distinct(final(ctx)@.cache),
        r matches Ok(pid) ==> final(ctx)@.scopes.len() == old(ctx)@.scopes.len(),
    decreases d, def_content_len(tree.defs@, d as int) + 2, 0int, 0int,
{
    proof {
        reveal(spec_convert_pattern);
    }
    match &tree.defs[d] {
        Def::Pattern(pd) => {
            proof {
            
                assert(wf_def(
                    tree.defs@[d as int],
                    d as int,
                    tree.defs@,
                    tree.paints@,
                    tree.fonts@.len() as int,
                    tree.images@.len() as int,
                ));
            }
            let eff = ts_new.concat(&pd.transform);
            let gc = ctx.get_or_create(ResKey::PatternAt { def: d, matrix: eff });
            if !gc.1 {
                proof {
            
                    assert(final(out)@ =~= old(out)@ + Seq::<Event>::empty());
                }
                return Ok(gc.0);
            }
            ctx.push_scope();
            let mut body_ops: Vec<Op> = Vec::new();
            let res = convert_list(
                tree,
                &pd.nodes,
                d,
                Ghost(-1),
                &pd.roots,
                &eff,
                opts,
                ctx,
                out,
                &mut body_ops,
            );
            match res {
                Err(e) => {
                    return Err(e);
                },
                Ok(()) => {},
            }
            let dict = ctx.pop_scope();
            emit_block(
                out,
                Event::BeginPattern { id: gc.0, width: pd.width, height: pd.height, matrix: eff },
                &body_ops,
                &dict,
            );
            proof {
            
                assert(final(out)@ =~= old(out)@ + spec_convert_pattern(
                    *tree,
                    d as int,
                    *ts_new,
                    *opts,
                    old(ctx)@,
                ).0.events);
            }
            Ok(gc.0)
        },
        _ => Err(ConversionError::UnknownError),
    }
}

#[verifier::rlimit(100)]
#[verifier::spinoff_prover]
fn resolve_paint(
    tree: &Tree,
    bound: usize,
    paint: usize,
    ts_new: &Transform,
    local_bb: Option<BBox>,
    for_stroke: bool,
    opts: &ConversionOptions,
    ctx: &mut Ctx,
    out: &mut Vec<Event>,
    ops: &mut Vec<Op>,
) -> (r: Result<bool, ConversionError>)
    requires
        wf_shared(*tree),
        bound <= tree.defs@.len(),
        crate::scene::paint_ref_ok(paint as int, tree.paints@, bound as int, tree.defs@),
        old(ctx)@.scopes.len() > 0,
    ensures
        final(ctx)@ == spec_resolve_paint(
            *tree,
            bound as int,
            paint,
            *ts_new,
            local_bb,
            for_stroke,
            *opts,
            old(ctx)@,
        ).ctx,
        final(out)@ == old(out)@ + spec_resolve_paint(
            *tree,
            bound as int,
            paint,
            *ts_new,
            local_bb,
            for_stroke,
            *opts,
            old(ctx)@,
        ).events,
        final(ops)@ == old(ops)@ + spec_resolve_paint(
            *tree,
            bound as int,
            paint,
            *ts_new,
            local_bb,
            for_stroke,
            *opts,
            old(ctx)@,
        ).ops,
        r matches Ok(painted) <==> spec_resolve_paint(
            *tree,
            bound as int,
            paint,
            *ts_new,
            local_bb,
            for_stroke,
            *opts,
            old(ctx)@,
        ).err is None && (r matches Ok(painted) ==> painted == spec_resolve_paint(
            *tree,
            bound as int,
            paint,
            *ts_new,
            local_bb,
            for_stroke,
            *opts,
            old(ctx)@,
        ).painted),
        r matches Err(e) ==> spec_resolve_paint(
            *tree,
            bound as int,
            paint,
            *ts_new,
            local_bb,
            for_stroke,
            *opts,
            old(ctx)@,
        ).err == Some(e),
        forall|jj: int|
            old(out)@.len() <= jj < final(out)@.len() ==> !(#[trigger] final(out)@[jj] is IccProfile),
        cache_keys_distinct(old(ctx)@.cache) ==> cache_keys_distinct(final(ctx)@.cache),
        r matches Ok(painted) ==> final(ctx)@.scopes.len() == old(ctx)@.scopes.len(),
    decreases bound, 0int, 0int, 0int,
{
    proof {
        reveal(spec_resolve_paint);
    }
    match &tree.paints[paint] {
        Paint::Solid(c) => {
            let painted = setup_solid(*c, for_stroke, ctx, out, ops);
            Ok(painted)
        },
        Paint::Linear(lg) => {
            let eff = ts_new.concat(&bbox_map(lg.units, local_bb).concat(&lg.transform));
            let painted = setup_gradient(
                paint,
                &lg.stops,
                ShadingKind::Linear { x1: lg.x1, y1: lg.y1, x2: lg.x2, y2: lg.y2 },
                eff,
                for_stroke,
                ctx,
                out,
                ops,
            );
            Ok(painted)
        },
        Paint::Radial(rg) => {
            let eff = ts_new.concat(&bbox_map(rg.units, local_bb).concat(&rg.transform));
            let painted = setup_gradient(
                paint,
                &rg.stops,
                ShadingKind::Radial { cx: rg.cx, cy: rg.cy, r: rg.r },
                eff,
                for_stroke,
                ctx,
                out,
                ops,
            );
            Ok(painted)
        },
        Paint::Pattern(d) => {
            let pres = convert_pattern(tree, *d, ts_new, opts, ctx, out);
            match pres {
                Err(e) => {
                    proof {
            
                        assert(final(ops)@ =~= old(ops)@ + Seq::<Op>::empty());
                    }
                    Err(e)
                },
                Ok(pid) => {
                    let name = ctx.register(ResKind::Pattern, pid);
                    if for_stroke {
                        ops.push(Op::SetStrokePattern { name });
                    } else {
                        ops.push(Op::SetFillPattern { name });
                    }
                    proof {
            
                        assert(final(ops)@ =~= old(ops)@ + spec_resolve_paint(
                            *tree,
                            bound as int,
                            paint,
                            *ts_new,
                            local_bb,
                            for_stroke,
                            *opts,
                            old(ctx)@,
                        ).ops);
                    }
                    Ok(true)
                },
            }
        },
    }
}

/// A constant-alpha graphics state for fill or stroke opacity.
fn setup_alpha(alpha: i64, ctx: &mut Ctx, out: &mut Vec<Event>, ops: &mut Vec<Op>)
    requires
        old(ctx)@.scopes.len() > 0,
    ensures
        final(ctx)@ == spec_setup_alpha(alpha, old(ctx)@).ctx,
        final(out)@ == old(out)@ + spec_setup_alpha(alpha, old(ctx)@).events,
        final(ops)@ == old(ops)@ + spec_setup_alpha(alpha, old(ctx)@).ops,
        forall|jj: int|
            old(out)@.len() <= jj < final(out)@.len() ==> !(#[trigger] final(out)@[jj] is IccProfile),
        cache_keys_distinct(old(ctx)@.cache) ==> cache_keys_distinct(final(ctx)@.cache),
        final(ctx)@.scopes.len() == old(ctx)@.scopes.len(),
{
    if alpha == FX_ONE {
        proof {
            assert(final(out)@ =~= old(out)@ + Seq::<Event>::empty());
            assert(final(ops)@ =~= old(ops)@ + Seq::<Op>::empty());
        }
        return ;
    }
    let gc = ctx.get_or_create(ResKey::Alpha(alpha));
    if gc.1 {
        out.push(Event::AlphaState { id: gc.0, alpha });
    }
    let name = ctx.register(ResKind::ExtGState, gc.0);
    ops.push(Op::SetExtGState { name });
    proof {
        assert(final(out)@ =~= old(out)@ + spec_setup_alpha(alpha, old(ctx)@).events);
        assert(final(ops)@ =~= old(ops)@ + spec_setup_alpha(alpha, old(ctx)@).ops);
    }
}

/// Emit the path-construction operators of `segs` unchanged (coordinates in
/// the node's own space; the surrounding transform operator places them).
fn push_raw_segment_ops(ops: &mut Vec<Op>, segs: &Vec<Segment>)
    ensures
        final(ops)@ == old(ops)@ + segment_ops(segs@),
{
    let mut i: usize = 0;
    while i < segs.len()
        invariant
            i <= segs.len(),
            ops@ == old(ops)@ + segment_ops(segs@.subrange(0, i as int)),
        decreases segs.len() - i,
    {
        let op = match segs[i] {
            Segment::MoveTo { x, y } => Op::MoveTo { x, y },
            Segment::LineTo { x, y } => Op::LineTo { x, y },
            Segment::CubicTo { x1, y1, x2, y2, x, y } => Op::CubicTo { x1, y1, x2, y2, x, y },
            Segment::Close => Op::ClosePath,
        };
        ops.push(op);
        proof {
            assert(segs@.subrange(0, i as int + 1).drop_last() =~= segs@.subrange(0, i as int));
            assert(segment_ops(segs@.subrange(0, i as int + 1)) =~= segment_ops(
                segs@.subrange(0, i as int),
            ).push(op));
        }
        i = i + 1;
    }
    proof {
        assert(segs@.subrange(0, segs@.len() as int) =~= segs@);
    }
}

#[verifier::rlimit(100)]
#[verifier::spinoff_prover]
fn fill_pass(
    tree: &Tree,
    bound: usize,
    f: &Fill,
    segments: &Vec<Segment>,
    ts_new: &Transform,
    local_bb: Option<BBox>,
    opts: &ConversionOptions,
    ctx: &mut Ctx,
    out: &mut Vec<Event>,
    ops: &mut Vec<Op>,
) -> (r: Result<(), ConversionError>)
    requires
        wf_shared(*tree),
        bound <= tree.defs@.len(),
        crate::scene::paint_ref_ok(f.paint as int, tree.paints@, bound as int, tree.defs@),
        old(ctx)@.scopes.len() > 0,
    ensures
        final(ctx)@ == spec_fill_pass(
            *tree,
            bound as int,
            *f,
            segments@,
            *ts_new,
            local_bb,
            *opts,
            old(ctx)@,
        ).ctx,
        final(out)@ == old(out)@ + spec_fill_pass(
            *tree,
            bound as int,
            *f,
            segments@,
            *ts_new,
            local_bb,
            *opts,
            old(ctx)@,
        ).events,
        final(ops)@ == old(ops)@ + spec_fill_pass(
            *tree,
            bound as int,
            *f,
            segments@,
            *ts_new,
            local_bb,
            *opts,
            old(ctx)@,
        ).ops,
        r matches Ok(()) <==> spec_fill_pass(
            *tree,
            bound as int,
            *f,
            segments@,
            *ts_new,
            local_bb,
            *opts,
            old(ctx)@,
        ).err is None,
        r matches Err(e) ==> spec_fill_pass(
            *tree,
            bound as int,
            *f,
            segments@,
            *ts_new,
            local_bb,
            *opts,
            old(ctx)@,
        ).err == Some(e),
        forall|jj: int|
            old(out)@.len() <= jj < final(out)@.len() ==> !(#[trigger] final(out)@[jj] is IccProfile),
        cache_keys_distinct(old(ctx)@.cache) ==> cache_keys_distinct(final(ctx)@.cache),
        r matches Ok(()) ==> final(ctx)@.scopes.len() == old(ctx)@.scopes.len(),
    decreases bound, 1int, 0int, 0int,
{
    let mut tmp: Vec<Op> = Vec::new();
    tmp.push(Op::Save);
    setup_alpha(f.opacity, ctx, out, &mut tmp);
    let pres = resolve_paint(
        tree,
        bound,
        f.paint,
        ts_new,
        local_bb,
        false,
        opts,
        ctx,
        out,
        &mut tmp,
    );
    let ghost so = spec_fill_pass(
        *tree,
        bound as int,
        *f,
        segments@,
        *ts_new,
        local_bb,
        *opts,
        old(ctx)@,
    );
    match pres {
        Err(e) => {
            proof {
            
                assert(final(out)@ =~= old(out)@ + so.events);
                assert(final(ops)@ =~= old(ops)@ + so.ops);
            }
            Err(e)
        },
        Ok(painted) => {
            if painted {
                push_raw_segment_ops(&mut tmp, segments);
                tmp.push(Op::FillPath { rule: f.rule });
                tmp.push(Op::Restore);
                ops.append(&mut tmp);
            }
            proof {
            
                assert(final(out)@ =~= old(out)@ + so.events);
                assert(final(ops)@ =~= old(ops)@ + so.ops);
            }
            Ok(())
        },
    }
}

#[verifier::rlimit(100)]
#[verifier::spinoff_prover]
fn stroke_pass(
    tree: &Tree,
    bound: usize,
    st: &Stroke,
    segments: &Vec<Segment>,
    ts_new: &Transform,
    local_bb: Option<BBox>,
    opts: &ConversionOptions,
    ctx: &mut Ctx,
    out: &mut Vec<Event>,
    ops: &mut Vec<Op>,
) -> (r: Result<(), ConversionError>)
    requires
        wf_shared(*tree),
        bound <= tree.defs@.len(),
        crate::scene::paint_ref_ok(st.paint as int, tree.paints@, bound as int, tree.defs@),
        old(ctx)@.scopes.len() > 0,
    ensures
        ({
            let so = spec_stroke_pass(*tree, bound as int, *st, segments@, *ts_new, local_bb, *opts, old(ctx)@);
            &&& final(ctx)@ == so.ctx
            &&& final(out)@ == old(out)@ + so.events
            &&& final(ops)@ == old(ops)@ + so.ops
            &&& (r matches Ok(()) <==> so.err is None)
            &&& (match r {
                Err(e) => so.err == Some(e),
                _ => true,
            })
        }),
        forall|jj: int|
            old(out)@.len() <= jj < final(out)@.len() ==> !(#[trigger] final(out)@[jj] is IccProfile),
        cache_keys_distinct(old(ctx)@.cache) ==> cache_keys_distinct(final(ctx)@.cache),
        r matches Ok(()) ==> final(ctx)@.scopes.len() == old(ctx)@.scopes.len(),
    decreases bound, 1int, 0int, 0int,
{
    let mut tmp: Vec<Op> = Vec::new();
    tmp.push(Op::Save);
    setup_alpha(st.opacity, ctx, out, &mut tmp);
    let pres = resolve_paint(
        tree,
        bound,
        st.paint,
        ts_new,
        local_bb,
        true,
        opts,
        ctx,
        out,
        &mut tmp,
    );
    let ghost so = spec_stroke_pass(
        *tree,
        bound as int,
        *st,
        segments@,
        *ts_new,
        local_bb,
        *opts,
        old(ctx)@,
    );
    match pres {
        Err(e) => {
            proof {
            
                assert(final(out)@ =~= old(out)@ + so.events);
                assert(final(ops)@ =~= old(ops)@ + so.ops);
            }
            Err(e)
        },
        Ok(painted) => {
            if painted {
                tmp.push(Op::SetLineWidth { width: st.width });
                push_raw_segment_ops(&mut tmp, segments);
                tmp.push(Op::StrokePath);
                tmp.push(Op::Restore);
                ops.append(&mut tmp);
            }
            proof {
            
                assert(final(out)@ =~= old(out)@ + so.events);
                assert(final(ops)@ =~= old(ops)@ + so.ops);
            }
            Ok(())
        },
    }
}

#[verifier::rlimit(100)]
#[verifier::spinoff_prover]
fn path_passes(
    tree: &Tree,
    bound: usize,
    fill: &Option<Fill>,
    stroke: &Option<Stroke>,
    segments: &Vec<Segment>,
    ts_new: &Transform,
    local_bb: Option<BBox>,
    opts: &ConversionOptions,
    ctx: &mut Ctx,
    out: &mut Vec<Event>,
    ops: &mut Vec<Op>,
) -> (r: Result<(), ConversionError>)
    requires
        wf_shared(*tree),
        bound <= tree.defs@.len(),
        (match *fill {
            Some(f) => crate::scene::paint_ref_ok(
                f.paint as int,
                tree.paints@,
                bound as int,
                tree.defs@,
            ),
            None => true,
        }),
        (match *stroke {
            Some(st) => crate::scene::paint_ref_ok(
                st.paint as int,
                tree.paints@,
                bound as int,
                tree.defs@,
            ),
            None => true,
        }),
        old(ctx)@.scopes.len() > 0,
    ensures
        ({
            let so = spec_path_passes(*tree, bound as int, *fill, *stroke, segments@, *ts_new, local_bb, *opts, old(ctx)@);
            &&& final(ctx)@ == so.ctx
            &&& final(out)@ == old(out)@ + so.events
            &&& final(ops)@ == old(ops)@ + so.ops
            &&& (r matches Ok(()) <==> so.err is None)
            &&& (match r {
                Err(e) => so.err == Some(e),
                _ => true,
            })
        }),
        forall|jj: int|
            old(out)@.len() <= jj < final(out)@.len() ==> !(#[trigger] final(out)@[jj] is IccProfile),
        cache_keys_distinct(old(ctx)@.cache) ==> cache_keys_distinct(final(ctx)@.cache),
        r matches Ok(()) ==> final(ctx)@.scopes.len() == old(ctx)@.scopes.len(),
    decreases bound, 1int, 1int, 0int,
{
    let ghost fill_so = match *fill {
        Some(f) => spec_fill_pass(
            *tree,
            bound as int,
            f,
            segments@,
            *ts_new,
            local_bb,
            *opts,
            old(ctx)@,
        ),
        None => step_ok(old(ctx)@),
    };
    match fill {
        Some(f) => {
            let res = fill_pass(tree, bound, f, segments, ts_new, local_bb, opts, ctx, out, ops);
            match res {
                Err(e) => {
                    proof {
            
                        assert(final(out)@ =~= old(out)@ + fill_so.events);
                        assert(final(ops)@ =~= old(ops)@ + fill_so.ops);
                    }
                    return Err(e);
                },
                Ok(()) => {},
            }
        },
        None => {
            proof {
            
                assert(out@ =~= old(out)@ + fill_so.events);
                assert(ops@ =~= old(ops)@ + fill_so.ops);
            }
        },
    }
    let ghost out_mid = out@;
    let ghost stroke_so = match *stroke {
        Some(st) => spec_stroke_pass(
            *tree,
            bound as int,
            st,
            segments@,
            *ts_new,
            local_bb,
            *opts,
            fill_so.ctx,
        ),
        None => step_ok(fill_so.ctx),
    };
    let mut err: Option<ConversionError> = None;
    match stroke {
        Some(st) => {
            let res = stroke_pass(tree, bound, st, segments, ts_new, local_bb, opts, ctx, out, ops);
            match res {
                Err(e) => {
                    err = Some(e);
                },
                Ok(()) => {},
            }
        },
        None => {},
    }
    proof {
            
        assert(out@ =~= old(out)@ + (fill_so.events + stroke_so.events));
        assert(ops@ =~= old(ops)@ + (fill_so.ops + stroke_so.ops));
        assert forall|jj: int|
            old(out)@.len() <= jj < out@.len() implies !((#[trigger] out@[jj]) is IccProfile) by {
            if jj < out_mid.len() {
                assert(out@[jj] == out_mid[jj]);
            }
        }
    }
    match err {
        Some(e) => Err(e),
        None => Ok(()),
    }
}

#[verifier::rlimit(100)]
#[verifier::spinoff_prover]
fn convert_path(
    tree: &Tree,
    nodes: &Vec<Node>,
    bound: usize,
    i: usize,
    p: &PathNode,
    ts: &Transform,
    opts: &ConversionOptions,
    ctx: &mut Ctx,
    out: &mut Vec<Event>,
    ops: &mut Vec<Op>,
) -> (r: Result<(), ConversionError>)
    requires
        arena_ok(*tree, nodes@, bound as int),
        i < nodes@.len(),
        nodes@[i as int] == Node::Path(*p),
        old(ctx)@.scopes.len() > 0,
    ensures
        ({
            let so = spec_convert_path(*tree, nodes@, bound as int, i as int, *p, *ts, *opts, old(ctx)@);
            &&& final(ctx)@ == so.ctx
            &&& final(out)@ == old(out)@ + so.events
            &&& final(ops)@ == old(ops)@ + so.ops
            &&& (r matches Ok(()) <==> so.err is None)
            &&& (match r {
                Err(e) => so.err == Some(e),
                _ => true,
            })
        }),
        forall|jj: int|
            old(out)@.len() <= jj < final(out)@.len() ==> !(#[trigger] final(out)@[jj] is IccProfile),
        cache_keys_distinct(old(ctx)@.cache) ==> cache_keys_distinct(final(ctx)@.cache),
        r matches Ok(()) ==> final(ctx)@.scopes.len() == old(ctx)@.scopes.len(),
    decreases bound, nodes@.len() - i, 2int, 1int,
{
    proof {
            
        assert(wf_node(
            nodes@[i as int],
            i as int,
            nodes@.len() as int,
            bound as int,
            tree.defs@,
            tree.paints@,
            tree.fonts@.len() as int,
            tree.images@.len() as int,
        ));
    }
    let ghost so = spec_convert_path(
        *tree,
        nodes@,
        bound as int,
        i as int,
        *p,
        *ts,
        *opts,
        old(ctx)@,
    );
    let ts_new = ts.concat(&p.transform);
    let ident = Transform::identity();
    let local_bb = segments_bbox(None, &p.segments, &ident);
    ops.push(Op::Save);
    ops.push(Op::Concat(p.transform));
    let ghost pp = spec_path_passes(
        *tree,
        bound as int,
        p.fill,
        p.stroke,
        p.segments@,
        ts_new,
        local_bb,
        *opts,
        old(ctx)@,
    );
    let res = path_passes(
        tree,
        bound,
        &p.fill,
        &p.stroke,
        &p.segments,
        &ts_new,
        local_bb,
        opts,
        ctx,
        out,
        ops,
    );
    match res {
        Err(e) => {
            proof {
            
                assert(so.events =~= pp.events);
                assert(so.ops =~= seq![Op::Save, Op::Concat(p.transform)] + pp.ops);
                assert(final(out)@ =~= old(out)@ + so.events);
                assert(final(ops)@ =~= old(ops)@ + so.ops);
            }
            Err(e)
        },
        Ok(()) => {
            ops.push(Op::Restore);
            proof {
            
                assert(so.events =~= pp.events);
                assert(so.ops =~= seq![Op::Save, Op::Concat(p.transform)] + pp.ops + seq![
                    Op::Restore,
                ]);
                assert(final(out)@ =~= old(out)@ + so.events);
                assert(final(ops)@ =~= old(ops)@ + so.ops);
            }
            Ok(())
        },
    }
}

fn convert_text(
    tree: &Tree,
    nodes: &Vec<Node>,
    bound: usize,
    i: usize,
    tx: &TextNode,
    ts: &Transform,
    opts: &ConversionOptions,
    ctx: &mut Ctx,
    out: &mut Vec<Event>,
    ops: &mut Vec<Op>,
) -> (r: Result<(), ConversionError>)
    requires
        arena_ok(*tree, nodes@, bound as int),
        i < nodes@.len(),
        nodes@[i as int] == Node::Text(*tx),
        old(ctx)@.scopes.len() > 0,
    ensures
        final(ctx)@ == spec_convert_text(
            *tree,
            nodes@,
            bound as int,
            i as int,
            *tx,
            *ts,
            *opts,
            old(ctx)@,
        ).ctx,
        final(out)@ == old(out)@ + spec_convert_text(
            *tree,
            nodes@,
            bound as int,
            i as int,
            *tx,
            *ts,
            *opts,
            old(ctx)@,
        ).events,
        final(ops)@ == old(ops)@ + spec_convert_text(
            *tree,
            nodes@,
            bound as int,
            i as int,
            *tx,
            *ts,
            *opts,
            old(ctx)@,
        ).ops,
        r matches Ok(()) <==> spec_convert_text(
            *tree,
            nodes@,
            bound as int,
            i as int,
            *tx,
            *ts,
            *opts,
            old(ctx)@,
        ).err is None,
        r matches Err(e) ==> spec_convert_text(
            *tree,
            nodes@,
            bound as int,
            i as int,
            *tx,
            *ts,
            *opts,
            old(ctx)@,
        ).err == Some(e),
        forall|jj: int|
            old(out)@.len() <= jj < final(out)@.len() ==> !(#[trigger] final(out)@[jj] is IccProfile),
        cache_keys_distinct(old(ctx)@.cache) ==> cache_keys_distinct(final(ctx)@.cache),
        r matches Ok(()) ==> final(ctx)@.scopes.len() == old(ctx)@.scopes.len(),
    decreases bound, nodes@.len() - i, 2int, 1int,
{
    proof {
            
        assert(wf_node(
            nodes@[i as int],
            i as int,
            nodes@.len() as int,
            bound as int,
            tree.defs@,
            tree.paints@,
            tree.fonts@.len() as int,
            tree.images@.len() as int,
        ));
    }
    let ghost so = spec_convert_text(
        *tree,
        nodes@,
        bound as int,
        i as int,
        *tx,
        *ts,
        *opts,
        old(ctx)@,
    );
    if opts.embed_text && tree.fonts[tx.font].readable {
        let fr = ctx.get_or_create(ResKey::FontRes(tx.font));
        let fname = ctx.register(ResKind::Font, fr.0);
        ops.push(Op::Save);
        ops.push(Op::Concat(tx.transform));
        let painted = setup_solid(tx.fill, false, ctx, out, ops);
        ops.push(Op::BeginText);
        ops.push(Op::SetFont { name: fname, size: tx.size });
        show_glyphs(tx.font, &tx.glyphs, ctx, ops);
        ops.push(Op::EndText);
        ops.push(Op::Restore);
        proof {
            
            assert(final(out)@ =~= old(out)@ + so.events);
            assert(final(ops)@ =~= old(ops)@ + so.ops);
        }
        Ok(())
    } else {
        ops.push(Op::Save);
        ops.push(Op::Concat(tx.transform));
        let ts_new = ts.concat(&tx.transform);
        let res = convert_list(
            tree,
            nodes,
            bound,
            Ghost(i as int),
            &tx.fallback,
            &ts_new,
            opts,
            ctx,
            out,
            ops,
        );
        match res {
            Err(e) => {
                proof {
            
                    assert(final(ops)@ =~= old(ops)@ + so.ops);
                }
                Err(e)
            },
            Ok(()) => {
                ops.push(Op::Restore);
                proof {
            
                    assert(final(ops)@ =~= old(ops)@ + so.ops);
                }
                Ok(())
            },
        }
    }
}

// ---------------------------------------------------------------------------
// Whole conversions.
// ---------------------------------------------------------------------------

/// The initial transform of a chunk conversion: the tree's viewport mapped
/// onto the unit square, with the vertical axis flipped for the output
/// format's upward y axis.
pub open spec fn spec_unit_matrix(t: Tree) -> Transform {
    Transform {
        a: spec_fx_div(FX_ONE, t.width),
        b: 0,
        c: 0,
        d: spec_fx_sub(0, spec_fx_div(FX_ONE, t.height)),
        e: 0,
        f: FX_ONE,
    }
}

/// A standalone-chunk conversion (§ output boundary, chunk form): validate,
/// convert the main arena, write the deferred global objects, and close
/// with the root XObject block spanning the unit square.  Returns the
/// events, the root identity, and the error if any.
pub open spec fn spec_to_chunk(t: Tree, opts: ConversionOptions) -> (
    Seq<Event>,
    u64,
    Option<ConversionError>,
) {
    if !crate::scene::wf_tree(t) {
        (Seq::empty(), 0, Some(ConversionError::UnknownError))
    } else {
        let m0 = CtxModel {
            next_id: 1,
            cache: Seq::empty(),
            scopes: Seq::empty(),
            glyphs: Seq::empty(),
        };
        let (root_id, m1) = spec_allocate(m0);
        let m2 = spec_push_scope(m1);
        let inner = spec_convert_list(
            t,
            t.nodes@,
            t.defs@.len() as int,
            -1,
            t.roots@,
            t.roots@.len() as int,
            spec_unit_matrix(t),
            opts,
            m2,
        );
        if inner.err is Some {
            (inner.events, root_id, inner.err)
        } else {
            let (dict, m3) = spec_pop_scope(inner.ctx);
            let fin = spec_finalize(m3.cache, m3.glyphs, t.fonts@, m3.cache.len() as int);
            if fin.1 is Some {
                (inner.events + fin.0, root_id, fin.1)
            } else {
                (
                    inner.events + fin.0 + spec_block(
                        Event::BeginXObject {
                            id: root_id,
                            kind: XObjectKind::Plain,
                            bbox: BBox { x0: 0, y0: 0, x1: FX_ONE, y1: FX_ONE },
                        },
                        inner.ops,
                        dict,
                    ),
                    root_id,
                    None,
                )
            }
        }
    }
}

/// Convert a scene tree into a standalone object chunk plus the identity of
/// its root XObject, which spans the unit square.  A malformed tree yields
/// a typed error; on success the event list is exactly the one
/// [`spec_to_chunk`] states, and each global ICC profile appears at most
/// once in it.
pub fn to_chunk(tree: &Tree, conversion_options: ConversionOptions) -> (r: Result<
    (Vec<Event>, u64),
    ConversionError,
>)
    ensures
        (match r {
            Ok((events, root)) => events@ == spec_to_chunk(*tree, conversion_options).0 && root
                == spec_to_chunk(*tree, conversion_options).1 && spec_to_chunk(
                *tree,
                conversion_options,
            ).2 is None,
            Err(e) => spec_to_chunk(*tree, conversion_options).2 == Some(e),
        }),
        (match r {
            Ok((events, root)) => forall|k: IccKind| icc_count(events@, k) <= 1,
            Err(_) => true,
        }),
{
    if !tree.is_valid() {
        return Err(ConversionError::UnknownError);
    }
    let mut ctx = Ctx::new(1);
    let root_id = ctx.allocate();
    ctx.push_scope();
    let ts0 = Transform {
        a: fx_div(FX_ONE, tree.width),
        b: 0,
        c: 0,
        d: fx_sub(0, fx_div(FX_ONE, tree.height)),
        e: 0,
        f: FX_ONE,
    };
    let mut out: Vec<Event> = Vec::new();
    let mut ops: Vec<Op> = Vec::new();
    let res = convert_list(
        tree,
        &tree.nodes,
        tree.defs.len(),
        Ghost(-1),
        &tree.roots,
        &ts0,
        &conversion_options,
        &mut ctx,
        &mut out,
        &mut ops,
    );
    match res {
        Err(e) => {
            return Err(e);
        },
        Ok(()) => {},
    }
    let ghost n_walk = out@.len();
    let ghost out_w = out@;
    let dict = ctx.pop_scope();
    let fres = write_global_objects(&ctx, &tree.fonts, &mut out);
    match fres {
        Err(e) => {
            return Err(e);
        },
        Ok(()) => {},
    }
    let ghost n_fin = out@.len();
    let ghost out_f = out@;
    emit_block(
        &mut out,
        Event::BeginXObject {
            id: root_id,
            kind: XObjectKind::Plain,
            bbox: BBox { x0: 0, y0: 0, x1: FX_ONE, y1: FX_ONE },
        },
        &ops,
        &dict,
    );
    proof {
        let sp = spec_to_chunk(*tree, conversion_options);
        assert(out@ =~= sp.0);
        let inner_part = out@.subrange(0, n_walk as int);
        let fin_part = out@.subrange(n_walk as int, n_fin as int);
        let block_part = out@.subrange(n_fin as int, out@.len() as int);
        assert(out@ =~= inner_part + fin_part + block_part);
        assert forall|k: IccKind| icc_count(out@, k) <= 1 by {
            lemma_icc_count_append(inner_part + fin_part, block_part, k);
            lemma_icc_count_append(inner_part, fin_part, k);
            assert(icc_count(inner_part + fin_part + block_part, k) == icc_count(inner_part, k)
                + icc_count(fin_part, k) + icc_count(block_part, k));
            assert forall|j: int|
                0 <= j < inner_part.len() implies !((#[trigger] inner_part[j]) is IccProfile) by {
                assert(inner_part[j] == out_w[j]);
            }
            assert forall|j: int|
                0 <= j < block_part.len() implies !((#[trigger] block_part[j]) is IccProfile) by {
                assert(block_part[j] == out@[n_fin + j]);
            }
            lemma_icc_count_zero(inner_part, k);
            lemma_icc_count_zero(block_part, k);
            assert(cache_keys_distinct(Seq::<CacheEntry>::empty()));
            assert(cache_keys_distinct(ctx@.cache));
            lemma_finalize_icc(ctx@.cache, ctx@.glyphs, tree.fonts@, k);
            assert(fin_part =~= spec_finalize(
                ctx@.cache,
                ctx@.glyphs,
                tree.fonts@,
                ctx@.cache.len() as int,
            ).0);
            assert(icc_count(fin_part, k) <= 1);
            assert(icc_count(out@, k) == icc_count(inner_part + fin_part + block_part, k));
        }
    }
    Ok((out, root_id))
}

/// A standalone-document conversion (§ output boundary, document form):
/// like [`spec_to_chunk`], but closed by a single page block sized by the
/// resolution option (72 units per inch of viewport at the default).
pub open spec fn spec_to_pdf(t: Tree, opts: ConversionOptions, page: PageOptions) -> (
    Seq<Event>,
    Option<ConversionError>,
) {
    if !crate::scene::wf_tree(t) {
        (Seq::empty(), Some(ConversionError::UnknownError))
    } else {
        let factor = spec_fx_div((72 * FX_ONE) as i64, page.dpi);
        let w_pt = spec_fx_mul(t.width, factor);
        let h_pt = spec_fx_mul(t.height, factor);
        let ts0 = Transform {
            a: factor,
            b: 0,
            c: 0,
            d: spec_fx_sub(0, factor),
            e: 0,
            f: h_pt,
        };
        let m0 = CtxModel {
            next_id: 1,
            cache: Seq::empty(),
            scopes: Seq::empty(),
            glyphs: Seq::empty(),
        };
        let m2 = spec_push_scope(m0);
        let inner = spec_convert_list(
            t,
            t.nodes@,
            t.defs@.len() as int,
            -1,
            t.roots@,
            t.roots@.len() as int,
            ts0,
            opts,
            m2,
        );
        if inner.err is Some {
            (inner.events, inner.err)
        } else {
            let (dict, m3) = spec_pop_scope(inner.ctx);
            let fin = spec_finalize(m3.cache, m3.glyphs, t.fonts@, m3.cache.len() as int);
            if fin.1 is Some {
                (inner.events + fin.0, fin.1)
            } else {
                (
                    inner.events + fin.0 + spec_block(
                        Event::BeginPage { width: w_pt, height: h_pt },
                        inner.ops,
                        dict,
                    ),
                    None,
                )
            }
        }
    }
}

/// Convert a scene tree into a complete single-page document description.
/// A malformed tree yields a typed error; on success the event list is
/// exactly the one [`spec_to_pdf`] states, and each global ICC profile
/// appears at most once in it.
pub fn to_pdf(
    tree: &Tree,
    conversion_options: ConversionOptions,
    page_options: PageOptions,
) -> (r: Result<Vec<Event>, ConversionError>)
    ensures
        (match r {
            Ok(events) => events@ == spec_to_pdf(*tree, conversion_options, page_options).0
                && spec_to_pdf(*tree, conversion_options, page_options).1 is None,
            Err(e) => spec_to_pdf(*tree, conversion_options, page_options).1 == Some(e),
        }),
        (match r {
            Ok(events) => forall|k: IccKind| icc_count(events@, k) <= 1,
            Err(_) => true,
        }),
{
    if !tree.is_valid() {
        return Err(ConversionError::UnknownError);
    }
    let factor = fx_div(72 * FX_ONE, page_options.dpi);
    let w_pt = fx_mul(tree.width, factor);
    let h_pt = fx_mul(tree.height, factor);
    let ts0 = Transform { a: factor, b: 0, c: 0, d: fx_sub(0, factor), e: 0, f: h_pt };
    let mut ctx = Ctx::new(1);
    ctx.push_scope();
    let mut out: Vec<Event> = Vec::new();
    let mut ops: Vec<Op> = Vec::new();
    let res = convert_list(
        tree,
        &tree.nodes,
        tree.defs.len(),
        Ghost(-1),
        &tree.roots,
        &ts0,
        &conversion_options,
        &mut ctx,
        &mut out,
        &mut ops,
    );
    match res {
        Err(e) => {
            return Err(e);
        },
        Ok(()) => {},
    }
    let ghost n_walk = out@.len();
    let ghost out_w = out@;
    let dict = ctx.pop_scope();
    let fres = write_global_objects(&ctx, &tree.fonts, &mut out);
    match fres {
        Err(e) => {
            return Err(e);
        },
        Ok(()) => {},
    }
    let ghost n_fin = out@.len();
    let ghost out_f = out@;
    emit_block(&mut out, Event::BeginPage { width: w_pt, height: h_pt }, &ops, &dict);
    proof {
        let sp = spec_to_pdf(*tree, conversion_options, page_options);
        assert(out@ =~= sp.0);
        let inner_part = out@.subrange(0, n_walk as int);
        let fin_part = out@.subrange(n_walk as int, n_fin as int);
        let block_part = out@.subrange(n_fin as int, out@.len() as int);
        assert(out@ =~= inner_part + fin_part + block_part);
        assert forall|k: IccKind| icc_count(out@, k) <= 1 by {
            lemma_icc_count_append(inner_part + fin_part, block_part, k);
            lemma_icc_count_append(inner_part, fin_part, k);
            assert(icc_count(inner_part + fin_part + block_part, k) == icc_count(inner_part, k)
                + icc_count(fin_part, k) + icc_count(block_part, k));
            assert forall|j: int|
                0 <= j < inner_part.len() implies !((#[trigger] inner_part[j]) is IccProfile) by {
                assert(inner_part[j] == out_w[j]);
            }
            assert forall|j: int|
                0 <= j < block_part.len() implies !((#[trigger] block_part[j]) is IccProfile) by {
                assert(block_part[j] == out@[n_fin + j]);
            }
            lemma_icc_count_zero(inner_part, k);
            lemma_icc_count_zero(block_part, k);
            assert(cache_keys_distinct(Seq::<CacheEntry>::empty()));
            assert(cache_keys_distinct(ctx@.cache));
            lemma_finalize_icc(ctx@.cache, ctx@.glyphs, tree.fonts@, k);
            assert(fin_part =~= spec_finalize(
                ctx@.cache,
                ctx@.glyphs,
                tree.fonts@,
                ctx@.cache.len() as int,
            ).0);
            assert(icc_count(fin_part, k) <= 1);
            assert(icc_count(out@, k) == icc_count(inner_part + fin_part + block_part, k));
        }
    }
    Ok(out)
}

/// Conversion is deterministic: the output is a mathematical function of
/// the tree and the options alone, so two runs on equal inputs give
/// byte-identical output.
pub proof fn lemma_conversion_deterministic(
    t1: Tree,
    t2: Tree,
    o1: ConversionOptions,
    o2: ConversionOptions,
)
    requires
        t1 == t2,
        o1 == o2,
    ensures
        spec_to_chunk(t1, o1) == spec_to_chunk(t2, o2),
{
}

} // verus!
