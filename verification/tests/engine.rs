use svg2pdf::api::{ConversionError, ConversionOptions, PageOptions};
use svg2pdf::content::{IccKind, ResKind};
use svg2pdf::ctx::{Ctx, ResKey};
use svg2pdf::fx::{fx_add, fx_ceil_units, fx_div, fx_mul, fx_sub, FX_MAX, FX_ONE};
use svg2pdf::geom::{segments_bbox, Segment};
use svg2pdf::scene::{Color, FillRule, Node, PathNode, Tree};
use svg2pdf::transform::Transform;

fn empty_tree() -> Tree {
    Tree {
        width: 100 * FX_ONE,
        height: 100 * FX_ONE,
        nodes: Vec::new(),
        roots: Vec::new(),
        defs: Vec::new(),
        paints: Vec::new(),
        images: Vec::new(),
        fonts: Vec::new(),
    }
}

#[test]
fn fixed_point_arithmetic_exact_values() {
    assert_eq!(fx_add(1500, 250), 1750);
    assert_eq!(fx_sub(1500, 2000), -500);
    assert_eq!(fx_mul(1500, 2000), 3000); // 1.5 * 2.0 == 3.0
    assert_eq!(fx_mul(-1500, 2000), -3000);
    assert_eq!(fx_div(3000, 2000), 1500); // 3.0 / 2.0 == 1.5
    assert_eq!(fx_div(1000, 0), 0);
    assert_eq!(fx_add(FX_MAX, FX_MAX), FX_MAX); // saturates
    assert_eq!(fx_ceil_units(20000), 20);
    assert_eq!(fx_ceil_units(20001), 21);
    assert_eq!(fx_ceil_units(-5), 0);
}

#[test]
fn transform_identity_preserves_points() {
    let id = Transform::identity();
    let p = id.apply(123_000, -456_000);
    assert_eq!(p, (123_000, -456_000));
    let sc = Transform::scale(2 * FX_ONE, 3 * FX_ONE);
    let q = sc.apply(10 * FX_ONE, 10 * FX_ONE);
    assert_eq!(q, (20 * FX_ONE, 30 * FX_ONE));
    let c = Transform::translate(5 * FX_ONE, 0).concat(&sc);
    let r = c.apply(FX_ONE, FX_ONE);
    assert_eq!(r, (7 * FX_ONE, 3 * FX_ONE));
}

#[test]
fn allocator_is_monotonic_and_fresh() {
    let mut ctx = Ctx::new(7);
    let a = ctx.allocate();
    let b = ctx.allocate();
    let c = ctx.allocate();
    assert_eq!((a, b, c), (7, 8, 9));
}

#[test]
fn deduplicator_returns_same_identity_for_same_key() {
    let mut ctx = Ctx::new(1);
    let (icc1, fresh1) = ctx.get_or_create(ResKey::Icc(IccKind::Srgb));
    let (icc2, fresh2) = ctx.get_or_create(ResKey::Icc(IccKind::Srgb));
    assert!(fresh1);
    assert!(!fresh2);
    assert_eq!(icc1, icc2);
    let (gray, fresh3) = ctx.get_or_create(ResKey::Icc(IccKind::Gray));
    assert!(fresh3);
    assert_ne!(gray, icc1);
}

#[test]
fn scopes_collect_only_their_own_resources() {
    let mut ctx = Ctx::new(1);
    ctx.push_scope();
    let outer = ctx.register(ResKind::XObject, 10);
    ctx.push_scope();
    let inner = ctx.register(ResKind::Shading, 20);
    let inner_dict = ctx.pop_scope();
    let outer_dict = ctx.pop_scope();
    assert_eq!(outer, 0);
    assert_eq!(inner, 0);
    assert_eq!(inner_dict.len(), 1);
    assert_eq!(inner_dict[0].id, 20);
    assert_eq!(outer_dict.len(), 1);
    assert_eq!(outer_dict[0].id, 10);
}

#[test]
fn register_reuses_name_for_repeated_reference() {
    let mut ctx = Ctx::new(1);
    ctx.push_scope();
    let n1 = ctx.register(ResKind::Pattern, 42);
    let n2 = ctx.register(ResKind::Pattern, 42);
    let n3 = ctx.register(ResKind::Pattern, 43);
    assert_eq!(n1, n2);
    assert_ne!(n1, n3);
    assert_eq!(ctx.pop_scope().len(), 2);
}

#[test]
fn validator_accepts_empty_and_rejects_bad_child() {
    let t = empty_tree();
    assert!(t.is_valid());
    let mut bad = empty_tree();
    bad.nodes.push(Node::Path(PathNode {
        transform: Transform::identity(),
        fill: None,
        stroke: None,
        segments: Vec::new(),
    }));
    bad.roots.push(5); // out of range
    assert!(!bad.is_valid());
}

#[test]
fn validator_rejects_nonpositive_size() {
    let mut t = empty_tree();
    t.width = 0;
    assert!(!t.is_valid());
}

#[test]
fn segment_bbox_covers_control_points() {
    let segs = vec![
        Segment::MoveTo { x: FX_ONE, y: 2 * FX_ONE },
        Segment::LineTo { x: 5 * FX_ONE, y: -FX_ONE },
        Segment::Close,
    ];
    let id = Transform::identity();
    let bb = segments_bbox(None, &segs, &id).unwrap();
    assert_eq!(bb.x0, FX_ONE);
    assert_eq!(bb.y0, -FX_ONE);
    assert_eq!(bb.x1, 5 * FX_ONE);
    assert_eq!(bb.y1, 2 * FX_ONE);
}

#[test]
fn default_options_match_documented_values() {
    let c = ConversionOptions::default();
    assert!(c.compress);
    assert_eq!(c.raster_scale, 1500);
    assert!(c.embed_text);
    let p = PageOptions::default();
    assert_eq!(p.dpi, 72 * FX_ONE);
}

#[test]
fn error_messages_name_their_cause() {
    assert!(ConversionError::InvalidImage.message().contains("image"));
    assert!(ConversionError::SubsetError(0).message().contains("subsetting"));
    assert!(ConversionError::InvalidFont(0).message().contains("font"));
    assert!(ConversionError::UnknownError.message().contains("conversion"));
    let _ = Color { r: 1, g: 2, b: 3 };
    let _ = FillRule::NonZero;
}
