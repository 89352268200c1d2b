use svg2pdf::api::{ConversionError, ConversionOptions, PageOptions};
use svg2pdf::content::{Event, Op, XObjectKind};
use svg2pdf::convert::{to_chunk, to_pdf};
use svg2pdf::fx::FX_ONE;
use svg2pdf::geom::Segment;
use svg2pdf::scene::{
    Color, Fill, FillRule, FontInfo, Glyph, GradientUnits, Group, LinearGradient, Node, Paint,
    PathNode, SpreadMethod, TextNode, Tree,
};
use svg2pdf::transform::Transform;

fn base_tree() -> Tree {
    Tree {
        width: 100 * FX_ONE,
        height: 100 * FX_ONE,
        nodes: Vec::new(),
        roots: Vec::new(),
        defs: Vec::new(),
        paints: Vec::new(),
        images: Vec::new(),
        fonts: Vec::new(),
    }
}

fn square(size: i64) -> Vec<Segment> {
    vec![
        Segment::MoveTo { x: 0, y: 0 },
        Segment::LineTo { x: size, y: 0 },
        Segment::LineTo { x: size, y: size },
        Segment::LineTo { x: 0, y: size },
        Segment::Close,
    ]
}

fn filled_path(paint: usize) -> Node {
    Node::Path(PathNode {
        transform: Transform::identity(),
        fill: Some(Fill { paint, opacity: FX_ONE, rule: FillRule::NonZero }),
        stroke: None,
        segments: square(10 * FX_ONE),
    })
}

#[test]
fn gradient_rectangle_yields_one_shading_and_one_fill() {
    // A single filled rectangle with a linear gradient from opaque red at
    // offset zero to opaque blue at offset one.
    let mut t = base_tree();
    t.paints.push(Paint::Linear(LinearGradient {
        x1: 0,
        y1: 0,
        x2: 10 * FX_ONE,
        y2: 0,
        stops: vec![
            svg2pdf::scene::Stop {
                offset: 0,
                color: Color { r: 255, g: 0, b: 0 },
                opacity: FX_ONE,
            },
            svg2pdf::scene::Stop {
                offset: FX_ONE,
                color: Color { r: 0, g: 0, b: 255 },
                opacity: FX_ONE,
            },
        ],
        units: GradientUnits::UserSpace,
        transform: Transform::identity(),
        spread: SpreadMethod::Pad,
    }));
    t.nodes.push(filled_path(0));
    t.roots.push(0);
    let (events, _root) = to_chunk(&t, ConversionOptions::default()).unwrap();
    let shadings = events
        .iter()
        .filter(|e| matches!(e, Event::BeginShading { .. }))
        .count();
    let stops = events
        .iter()
        .filter(|e| matches!(e, Event::GradientStop { .. }))
        .count();
    let fills = events
        .iter()
        .filter(|e| matches!(e, Event::Op(Op::FillPath { .. })))
        .count();
    let pattern_sets = events
        .iter()
        .filter(|e| matches!(e, Event::Op(Op::SetFillPattern { .. })))
        .count();
    assert_eq!(shadings, 1);
    assert_eq!(stops, 2);
    assert_eq!(fills, 1);
    assert_eq!(pattern_sets, 1);
}

#[test]
fn half_opacity_group_yields_one_transparency_group() {
    // A group with opacity one half wrapping two overlapping paths becomes
    // exactly one transparency group with a constant-alpha state of 0.5.
    let mut t = base_tree();
    t.paints.push(Paint::Solid(Color { r: 10, g: 20, b: 30 }));
    t.nodes.push(Node::Group(Group {
        transform: Transform::identity(),
        opacity: Some(FX_ONE / 2),
        clip: None,
        mask: None,
        filter: false,
        children: vec![1, 2],
    }));
    t.nodes.push(filled_path(0));
    t.nodes.push(filled_path(0));
    t.roots.push(0);
    let (events, _root) = to_chunk(&t, ConversionOptions::default()).unwrap();
    let groups = events
        .iter()
        .filter(
            |e| matches!(e, Event::BeginXObject { kind: XObjectKind::Transparency, .. }),
        )
        .count();
    let alphas: Vec<i64> = events
        .iter()
        .filter_map(|e| match e {
            Event::AlphaState { alpha, .. } => Some(*alpha),
            _ => None,
        })
        .collect();
    assert_eq!(groups, 1);
    assert_eq!(alphas, vec![FX_ONE / 2]);
}

#[test]
fn filter_fallback_has_scaled_pixel_dimensions() {
    // A filtered subtree with a 10 by 10 device-space box at raster scale
    // two becomes one embedded image of exactly 20 by 20 pixels.
    let mut t = base_tree();
    t.paints.push(Paint::Solid(Color { r: 0, g: 0, b: 0 }));
    t.nodes.push(Node::Group(Group {
        transform: Transform::identity(),
        opacity: None,
        clip: None,
        mask: None,
        filter: true,
        children: vec![1],
    }));
    t.nodes.push(filled_path(0));
    t.roots.push(0);
    let mut opts = ConversionOptions::default();
    opts.raster_scale = 2 * FX_ONE;
    // The device transform of the chunk maps the 100-unit viewport onto the
    // unit square, so draw in a tree sized to keep a 10x10 device box:
    t.width = FX_ONE;
    t.height = FX_ONE;
    let (events, _root) = to_chunk(&t, opts).unwrap();
    let dims: Vec<(u64, u64)> = events
        .iter()
        .filter_map(|e| match e {
            Event::FilterImage { width_px, height_px, .. } => Some((*width_px, *height_px)),
            _ => None,
        })
        .collect();
    assert_eq!(dims, vec![(20, 20)]);
}

#[test]
fn shared_font_is_embedded_once() {
    // Two sibling text nodes using the same font with overlapping glyph
    // sets produce exactly one embedded font object.
    let mut t = base_tree();
    t.fonts.push(FontInfo { readable: true, subsettable: true });
    let glyphs1 = vec![Glyph { gid: 5, x: 0, y: 0 }, Glyph { gid: 6, x: FX_ONE, y: 0 }];
    let glyphs2 = vec![Glyph { gid: 6, x: 0, y: 0 }, Glyph { gid: 7, x: FX_ONE, y: 0 }];
    for glyphs in [glyphs1, glyphs2] {
        t.nodes.push(Node::Text(TextNode {
            transform: Transform::identity(),
            font: 0,
            size: 12 * FX_ONE,
            glyphs,
            fill: Color { r: 0, g: 0, b: 0 },
            fallback: Vec::new(),
        }));
    }
    t.roots.push(0);
    t.roots.push(1);
    let (events, _root) = to_chunk(&t, ConversionOptions::default()).unwrap();
    let fonts = events
        .iter()
        .filter(|e| matches!(e, Event::BeginFont { .. }))
        .count();
    let glyph_set: Vec<u16> = events
        .iter()
        .filter_map(|e| match e {
            Event::FontGlyph { gid } => Some(*gid),
            _ => None,
        })
        .collect();
    assert_eq!(fonts, 1);
    assert_eq!(glyph_set, vec![5, 6, 7]);
}

#[test]
fn unsubsettable_font_reports_subset_error() {
    let mut t = base_tree();
    t.fonts.push(FontInfo { readable: true, subsettable: false });
    t.nodes.push(Node::Text(TextNode {
        transform: Transform::identity(),
        font: 0,
        size: 12 * FX_ONE,
        glyphs: vec![Glyph { gid: 1, x: 0, y: 0 }],
        fill: Color { r: 0, g: 0, b: 0 },
        fallback: Vec::new(),
    }));
    t.roots.push(0);
    let r = to_chunk(&t, ConversionOptions::default());
    assert_eq!(r.unwrap_err(), ConversionError::SubsetError(0));
}

#[test]
fn malformed_tree_reports_unknown_error() {
    let mut t = base_tree();
    t.roots.push(3);
    assert_eq!(
        to_chunk(&t, ConversionOptions::default()).unwrap_err(),
        ConversionError::UnknownError
    );
}

#[test]
fn conversion_is_deterministic() {
    let mut t = base_tree();
    t.paints.push(Paint::Solid(Color { r: 9, g: 8, b: 7 }));
    t.nodes.push(filled_path(0));
    t.roots.push(0);
    let a = to_chunk(&t, ConversionOptions::default()).unwrap();
    let b = to_chunk(&t, ConversionOptions::default()).unwrap();
    assert_eq!(a.0, b.0);
    assert_eq!(a.1, b.1);
    let pa = to_pdf(&t, ConversionOptions::default(), PageOptions::default()).unwrap();
    let pb = to_pdf(&t, ConversionOptions::default(), PageOptions::default()).unwrap();
    assert_eq!(pa, pb);
}

#[test]
fn full_opacity_group_is_like_no_opacity() {
    let mut with_one = base_tree();
    with_one.paints.push(Paint::Solid(Color { r: 1, g: 2, b: 3 }));
    with_one.nodes.push(Node::Group(Group {
        transform: Transform::identity(),
        opacity: Some(FX_ONE),
        clip: None,
        mask: None,
        filter: false,
        children: vec![1],
    }));
    with_one.nodes.push(filled_path(0));
    with_one.roots.push(0);

    let mut without = base_tree();
    without.paints.push(Paint::Solid(Color { r: 1, g: 2, b: 3 }));
    without.nodes.push(Node::Group(Group {
        transform: Transform::identity(),
        opacity: None,
        clip: None,
        mask: None,
        filter: false,
        children: vec![1],
    }));
    without.nodes.push(filled_path(0));
    without.roots.push(0);

    let a = to_chunk(&with_one, ConversionOptions::default()).unwrap();
    let b = to_chunk(&without, ConversionOptions::default()).unwrap();
    assert_eq!(a.0, b.0);
}

#[test]
fn page_output_ends_with_page_block() {
    let mut t = base_tree();
    t.paints.push(Paint::Solid(Color { r: 0, g: 0, b: 0 }));
    t.nodes.push(filled_path(0));
    t.roots.push(0);
    let events = to_pdf(&t, ConversionOptions::default(), PageOptions::default()).unwrap();
    let pages: Vec<(i64, i64)> = events
        .iter()
        .filter_map(|e| match e {
            Event::BeginPage { width, height } => Some((*width, *height)),
            _ => None,
        })
        .collect();
    assert_eq!(pages, vec![(100 * FX_ONE, 100 * FX_ONE)]);
    assert_eq!(*events.last().unwrap(), Event::End);
}
