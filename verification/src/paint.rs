//! The paint emitter: walks the node tree depth-first in document order and
//! emits one ordered sequence of drawing primitives per frame. Two modes
//! exist, as two walkers:
//!
//! - the cursor-advancing mode paints only absolutely positioned boxes,
//!   resolving their geometry itself and threading a paint cursor down the
//!   tree (`emit_absolute`);
//! - the externally-laid-out mode paints every node at the geometry a layout
//!   engine computed beforehand (`emit_laid_out`).
//!
//! In both, the root itself is never painted, one bad node degrades to "paint
//! nothing for this node", and traversal always continues into children.

use vstd::prelude::*;

use crate::geom::AbsBox;
use crate::geom::Insets;
use crate::geom::spec_resolve_box;
use crate::geom::resolve_box;
use crate::image::ImageCache;
use crate::image::spec_cache_get;
use crate::strutil::chars_of;
use crate::strutil::chars_to_string;
use crate::strutil::spec_split;
use crate::strutil::spec_trim;
use crate::strutil::split_chars;
use crate::strutil::trim_chars;
use crate::style::Radii;
use crate::style::Rgba;
use crate::style::UsedValue;
use crate::style::spec_clamp_len;
use crate::style::clamp_len;
use crate::style::spec_radii_from_shorthand;
use crate::style::radii_from_shorthand;
use crate::style::LEN_MAX;
use crate::text::FontCatalog;
use crate::text::Glyph;
use crate::text::GlyphRun;
use crate::text::TextRenderer;
use crate::text::spec_select_font;
use crate::text::spec_shape;
use crate::text::FONT_SIZE_MAX;
use crate::tree::NodeData;
use crate::tree::RenderTree;
use crate::tree::spec_find_attr;
use crate::tree::spec_node_prop;
use crate::tree::spec_read_color;
use crate::tree::spec_read_keyword;
use crate::tree::spec_read_px;

verus! {

// ---------------------------------------------------------------------------
// Paint commands
// ---------------------------------------------------------------------------

/// One atomic drawing instruction, consumed once per frame by the
/// presentation layer and discarded.
#[derive(PartialEq, Debug)]
pub enum PaintCommand {
    /// A filled rectangle in corner form, with per-corner radii.
    RoundedRect { x: i64, y: i64, x2: i64, y2: i64, radii: Radii, color: Rgba },
    /// A shaped glyph run, translated to `(x, y)`.
    Text { run: GlyphRun, x: i64, y: i64, color: Rgba },
    /// A bitmap, translated to `(x, y)` and uniformly scaled so its native
    /// width maps onto `box_width` (the height scales proportionally).
    Image { src: String, img_width: u32, img_height: u32, x: i64, y: i64, box_width: i64 },
}

/// The mathematical shadow of a text command.
pub ghost struct SpecText {
    pub family: Seq<char>,
    pub font_size: i64,
    pub glyphs: Seq<Glyph>,
    pub x: i64,
    pub y: i64,
    pub color: Rgba,
}

/// The mathematical shadow of a paint command.
pub ghost enum SpecCommand {
    RoundedRect { x: i64, y: i64, x2: i64, y2: i64, radii: Radii, color: Rgba },
    Text(SpecText),
    Image { src: Seq<char>, img_width: u32, img_height: u32, x: i64, y: i64, box_width: i64 },
}

impl View for PaintCommand {
    type V = SpecCommand;

    open spec fn view(&self) -> SpecCommand {
        match *self {
            PaintCommand::RoundedRect { x, y, x2, y2, radii, color } => SpecCommand::RoundedRect {
                x,
                y,
                x2,
                y2,
                radii,
                color,
            },
            PaintCommand::Text { run, x, y, color } => SpecCommand::Text(
                SpecText {
                    family: run.family@,
                    font_size: run.font_size,
                    glyphs: run.glyphs@,
                    x,
                    y,
                    color,
                },
            ),
            PaintCommand::Image { src, img_width, img_height, x, y, box_width } => SpecCommand::Image {
                src: src@,
                img_width,
                img_height,
                x,
                y,
                box_width,
            },
        }
    }
}

/// The views of a command sequence.
pub open spec fn views_of(s: Seq<PaintCommand>) -> Seq<SpecCommand> {
    s.map_values(|c: PaintCommand| c@)
}

/// What went wrong at one node. Every error is per-node: the walk never
/// stops, the node merely paints nothing.
#[derive(Clone, Copy, PartialEq, Eq, Structural, Debug)]
pub enum EmitErrorKind {
    /// No family in the node's font list matched any catalog face.
    FontNotFound,
    /// The layout engine supplied no geometry for the node.
    NoGeometry,
    /// An `img` element without a `src` attribute.
    MissingSrc,
}

#[derive(Clone, Copy, PartialEq, Eq, Structural, Debug)]
pub struct EmitError {
    pub node: usize,
    pub kind: EmitErrorKind,
}

impl<'a> TextRenderer<'a> {
    /// Wraps an already-shaped run into a text command at the given position,
    /// at this renderer's font size: the show step for prerendered text.
    pub fn show_text(&self, prerendered: &GlyphRun, x: i64, y: i64, color: Rgba) -> (r:
        PaintCommand)
        ensures
            r@ == SpecCommand::Text(
                SpecText {
                    family: prerendered.family@,
                    font_size: self.font_size,
                    glyphs: prerendered.glyphs@,
                    x,
                    y,
                    color,
                },
            ),
    {
        let mut glyphs: Vec<Glyph> = Vec::new();
        let mut i: usize = 0;
        while i < prerendered.glyphs.len()
            invariant
                i <= prerendered.glyphs@.len(),
                glyphs@ == prerendered.glyphs@.subrange(0, i as int),
            decreases prerendered.glyphs@.len() - i,
        {
            glyphs.push(prerendered.glyphs[i]);
            proof {
                assert(glyphs@ =~= prerendered.glyphs@.subrange(0, i + 1));
            }
            i += 1;
        }
        proof {
            assert(glyphs@ =~= prerendered.glyphs@);
        }
        let run = GlyphRun {
            family: prerendered.family.clone(),
            font_size: self.font_size,
            glyphs,
        };
        PaintCommand::Text { run, x, y, color }
    }
}

// ---------------------------------------------------------------------------
// Style reads of the emitter
// ---------------------------------------------------------------------------

/// The font family list of a text node, taken from its parent: the
/// `font-family` keyword (default `Arial`), trimmed as a whole and split on
/// commas. The pieces are not trimmed individually.
pub open spec fn spec_font_families(tree: RenderTree, parent: int) -> Seq<Seq<char>> {
    let fam = match spec_read_keyword(tree, parent, "font-family"@) {
        Some(s) => s@,
        None => "Arial"@,
    };
    spec_split(spec_trim(fam), ',')
}

/// The font size of a text node, from its parent's `font-size`: a pixel
/// length when one resolves, `12` otherwise. Negative sizes count as
/// malformed and fall back to the default; oversized ones are capped.
pub open spec fn spec_font_size(tree: RenderTree, parent: int) -> i64 {
    match spec_read_px(tree, parent, "font-size"@) {
        Some(n) => if n < 0 {
            12
        } else if n > FONT_SIZE_MAX {
            FONT_SIZE_MAX
        } else {
            n
        },
        None => 12,
    }
}

/// The text color, from the parent's `color` property: opaque white when the
/// property is absent, fully transparent black when it is present but no
/// color.
pub open spec fn spec_text_color(tree: RenderTree, parent: int) -> Rgba {
    match spec_read_color(tree, parent, "color"@) {
        Some(c) => c,
        None => Rgba { r: 255, g: 255, b: 255, a: 255 },
    }
}

/// The background color of a box: fully transparent black unless
/// `background-color` resolves to a color.
pub open spec fn spec_bg_color(tree: RenderTree, id: int) -> Rgba {
    match spec_read_color(tree, id, "background-color"@) {
        Some(c) => c,
        None => Rgba { r: 0, g: 0, b: 0, a: 0 },
    }
}

/// The per-corner radii of a box, from `border-radius`: a resolved length
/// gives a uniform radius, a composite keyword is parsed as the CSS corner
/// shorthand, anything else gives square corners.
pub open spec fn spec_radii(tree: RenderTree, id: int) -> Radii {
    match spec_node_prop(tree, id, "border-radius"@) {
        Some(p) => match p.effective_spec() {
            UsedValue::Px(n) => Radii {
                tl: spec_clamp_len(n as int),
                tr: spec_clamp_len(n as int),
                br: spec_clamp_len(n as int),
                bl: spec_clamp_len(n as int),
            },
            UsedValue::Keyword(s) => spec_radii_from_shorthand(s@),
            UsedValue::Color(_) => Radii { tl: 0, tr: 0, br: 0, bl: 0 },
        },
        None => Radii { tl: 0, tr: 0, br: 0, bl: 0 },
    }
}

/// The position-family properties of a node, as the box resolver reads them.
pub open spec fn spec_insets(tree: RenderTree, id: int) -> Insets {
    Insets {
        top: spec_read_px(tree, id, "top"@),
        left: spec_read_px(tree, id, "left"@),
        right: spec_read_px(tree, id, "right"@),
        bottom: spec_read_px(tree, id, "bottom"@),
        width: spec_read_px(tree, id, "width"@),
        height: spec_read_px(tree, id, "height"@),
    }
}

/// Whether the node is absolutely positioned: its `position` property
/// resolves to the keyword `absolute`.
pub open spec fn spec_is_absolute(tree: RenderTree, id: int) -> bool {
    match spec_read_keyword(tree, id, "position"@) {
        Some(s) => s@ == "absolute"@,
        None => false,
    }
}

pub fn font_families(tree: &RenderTree, parent: usize) -> (r: Vec<String>)
    ensures
        r.deep_view() == spec_font_families(*tree, parent as int),
{
    let base: Vec<char> = match tree.read_keyword(parent, "font-family") {
        Some(s) => chars_of(s.as_str()),
        None => chars_of("Arial"),
    };
    let trimmed = trim_chars(&base);
    let pieces = split_chars(&trimmed, ',');
    let mut r: Vec<String> = Vec::new();
    let mut i: usize = 0;
    while i < pieces.len()
        invariant
            i <= pieces@.len(),
            r@.len() == i,
            pieces.deep_view() == spec_font_families(*tree, parent as int),
            forall|j: int| 0 <= j < i ==> #[trigger] r@[j]@ == pieces.deep_view()[j],
        decreases pieces@.len() - i,
    {
        proof {
            assert(pieces.deep_view()[i as int] == pieces@[i as int].deep_view());
            assert(pieces@[i as int].deep_view() =~= pieces@[i as int]@);
        }
        r.push(chars_to_string(&pieces[i]));
        i += 1;
    }
    proof {
        assert(r.deep_view() =~= pieces.deep_view());
    }
    r
}

pub fn font_size(tree: &RenderTree, parent: usize) -> (r: i64)
    ensures
        r == spec_font_size(*tree, parent as int),
        0 <= r <= FONT_SIZE_MAX,
{
    match tree.read_px(parent, "font-size") {
        Some(n) => {
            if n < 0 {
                12
            } else if n > FONT_SIZE_MAX {
                FONT_SIZE_MAX
            } else {
                n
            }
        },
        None => 12,
    }
}

pub fn text_color(tree: &RenderTree, parent: usize) -> (r: Rgba)
    ensures
        r == spec_text_color(*tree, parent as int),
{
    match tree.read_color(parent, "color") {
        Some(c) => c,
        None => Rgba { r: 255, g: 255, b: 255, a: 255 },
    }
}

pub fn bg_color(tree: &RenderTree, id: usize) -> (r: Rgba)
    ensures
        r == spec_bg_color(*tree, id as int),
{
    match tree.read_color(id, "background-color") {
        Some(c) => c,
        None => Rgba { r: 0, g: 0, b: 0, a: 0 },
    }
}

pub fn radii_of(tree: &RenderTree, id: usize) -> (r: Radii)
    ensures
        r == spec_radii(*tree, id as int),
{
    let Some(p) = tree.get_property(id, "border-radius") else {
        return Radii { tl: 0, tr: 0, br: 0, bl: 0 };
    };
    match p.effective() {
        UsedValue::Px(n) => {
            let c = clamp_len(n);
            Radii { tl: c, tr: c, br: c, bl: c }
        },
        UsedValue::Keyword(s) => {
            let cv = chars_of(s.as_str());
            radii_from_shorthand(&cv)
        },
        UsedValue::Color(_) => Radii { tl: 0, tr: 0, br: 0, bl: 0 },
    }
}

pub fn insets_of(tree: &RenderTree, id: usize) -> (r: Insets)
    ensures
        r == spec_insets(*tree, id as int),
        r.wf(),
{
    Insets {
        top: tree.read_px(id, "top"),
        left: tree.read_px(id, "left"),
        right: tree.read_px(id, "right"),
        bottom: tree.read_px(id, "bottom"),
        width: tree.read_px(id, "width"),
        height: tree.read_px(id, "height"),
    }
}

pub fn is_absolute(tree: &RenderTree, id: usize) -> (r: bool)
    ensures
        r == spec_is_absolute(*tree, id as int),
{
    match tree.read_keyword(id, "position") {
        Some(s) => crate::strutil::str_eq_str(s.as_str(), "absolute"),
        None => false,
    }
}


// ---------------------------------------------------------------------------
// Saturating cursor arithmetic
// ---------------------------------------------------------------------------

/// Cursor coordinates saturate at the `i64` range instead of wrapping: a
/// pathologically deep run of text nodes pins the cursor at the edge rather
/// than corrupting positions.
pub open spec fn spec_sat_add(a: i64, b: i64) -> i64 {
    if a + b > i64::MAX {
        i64::MAX
    } else if a + b < i64::MIN {
        i64::MIN
    } else {
        (a + b) as i64
    }
}

pub fn sat_add(a: i64, b: i64) -> (r: i64)
    ensures
        r == spec_sat_add(a, b),
{
    if b >= 0 {
        if a > i64::MAX - b {
            i64::MAX
        } else {
            a + b
        }
    } else {
        if a < i64::MIN - b {
            i64::MIN
        } else {
            a + b
        }
    }
}

/// The line height as a coordinate, always in range for well-formed faces.
pub open spec fn spec_line_height_i64(face: crate::text::FontFace, size: i64) -> i64 {
    crate::text::spec_line_height(face, size) as i64
}

// ---------------------------------------------------------------------------
// Cursor-advancing mode: the emitted sequences
// ---------------------------------------------------------------------------

/// The per-node part of the cursor-advancing walk: the commands and errors of
/// the node itself, and the cursor its subtree inherits. A text node draws at
/// the cursor after advancing it by one line height; an absolutely positioned
/// element moves the cursor to its box corner; every other node leaves the
/// cursor alone and paints nothing.
pub open spec fn spec_abs_one(
    tree: RenderTree,
    catalog: FontCatalog,
    cache: ImageCache,
    cw: i64,
    ch: i64,
    id: int,
    parent: int,
    cur: (i64, i64),
) -> (Seq<SpecCommand>, Seq<EmitError>, (i64, i64)) {
    match tree.nodes@[id].data {
        NodeData::Text(s) => {
            let families = spec_font_families(tree, parent);
            let size = spec_font_size(tree, parent);
            match spec_select_font(catalog.faces@, families) {
                None => (
                    Seq::empty(),
                    seq![EmitError { node: id as usize, kind: EmitErrorKind::FontNotFound }],
                    cur,
                ),
                Some(fi) => {
                    let face = catalog.faces@[fi];
                    let y2 = spec_sat_add(cur.1, spec_line_height_i64(face, size));
                    let cmd = SpecCommand::Text(
                        SpecText {
                            family: face.family@,
                            font_size: size,
                            glyphs: spec_shape(face, size, s@, false, 0, 0),
                            x: cur.0,
                            y: y2,
                            color: spec_text_color(tree, parent),
                        },
                    );
                    (seq![cmd], Seq::empty(), (cur.0, y2))
                },
            }
        },
        NodeData::Element { tag, attributes } => {
            if !spec_is_absolute(tree, id) {
                (Seq::empty(), Seq::empty(), cur)
            } else {
                match spec_resolve_box(spec_insets(tree, id), cw, ch) {
                    None => (Seq::empty(), Seq::empty(), cur),
                    Some(b) => {
                        let cur2 = (b.x, b.y);
                        if tag@ == "img"@ {
                            match spec_find_attr(attributes@, "src"@) {
                                None => (Seq::empty(), Seq::empty(), cur2),
                                Some(src) => match spec_cache_get(cache.entries@, src@) {
                                    None => (Seq::empty(), Seq::empty(), cur2),
                                    Some(img) => (
                                        seq![
                                            SpecCommand::Image {
                                                src: src@,
                                                img_width: img.width,
                                                img_height: img.height,
                                                x: b.x,
                                                y: b.y,
                                                box_width: b.width,
                                            },
                                        ],
                                        Seq::empty(),
                                        cur2,
                                    ),
                                },
                            }
                        } else {
                            (
                                seq![
                                    SpecCommand::RoundedRect {
                                        x: b.x,
                                        y: b.y,
                                        x2: (b.x + b.width) as i64,
                                        y2: (b.y + b.height) as i64,
                                        radii: spec_radii(tree, id),
                                        color: spec_bg_color(tree, id),
                                    },
                                ],
                                Seq::empty(),
                                cur2,
                            )
                        }
                    },
                }
            }
        },
    }
}

/// The subtree rooted at `id`, pre-order: the node's own commands first, then
/// each child's subtree, in child-list order.
pub open spec fn spec_emit_abs_from(
    tree: RenderTree,
    catalog: FontCatalog,
    cache: ImageCache,
    cw: i64,
    ch: i64,
    id: int,
    parent: int,
    cur: (i64, i64),
) -> (Seq<SpecCommand>, Seq<EmitError>)
    decreases tree.nodes@.len() - id, 1int, 0int,
        when tree.wf() && 0 <= id < tree.nodes@.len()
{
    let one = spec_abs_one(tree, catalog, cache, cw, ch, id, parent, cur);
    let kids = spec_emit_abs_kids(tree, catalog, cache, cw, ch, id, 0, one.2);
    (one.0 + kids.0, one.1 + kids.1)
}

/// The subtrees of the children of `id` from child `k` on, each with the same
/// inherited cursor.
pub open spec fn spec_emit_abs_kids(
    tree: RenderTree,
    catalog: FontCatalog,
    cache: ImageCache,
    cw: i64,
    ch: i64,
    id: int,
    k: int,
    cur: (i64, i64),
) -> (Seq<SpecCommand>, Seq<EmitError>)
    decreases tree.nodes@.len() - id, 0int, tree.nodes@[id].children@.len() - k,
        when tree.wf() && 0 <= id < tree.nodes@.len() && 0 <= k
{
    if k >= tree.nodes@[id].children@.len() {
        (Seq::empty(), Seq::empty())
    } else {
        let child = tree.nodes@[id].children@[k] as int;
        let sub = spec_emit_abs_from(tree, catalog, cache, cw, ch, child, id, cur);
        let rest = spec_emit_abs_kids(tree, catalog, cache, cw, ch, id, k + 1, cur);
        (sub.0 + rest.0, sub.1 + rest.1)
    }
}

/// The whole frame in cursor-advancing mode: the root's children, the root
/// itself never painted, starting with the cursor at the origin.
pub open spec fn spec_emit_absolute(
    tree: RenderTree,
    catalog: FontCatalog,
    cache: ImageCache,
    cw: i64,
    ch: i64,
) -> (Seq<SpecCommand>, Seq<EmitError>) {
    spec_emit_abs_kids(tree, catalog, cache, cw, ch, 0, 0, (0i64, 0i64))
}

// ---------------------------------------------------------------------------
// Cursor-advancing mode: the walker
// ---------------------------------------------------------------------------

/// Emits one node's own primitive (when it has one) and returns the cursor
/// its children inherit.
#[verifier::loop_isolation(false)]
fn emit_abs_one(
    tree: &RenderTree,
    catalog: &FontCatalog,
    cache: &ImageCache,
    cw: i64,
    ch: i64,
    id: usize,
    parent: usize,
    cur_x: i64,
    cur_y: i64,
    out: &mut Vec<PaintCommand>,
    errs: &mut Vec<EmitError>,
) -> (cur2: (i64, i64))
    requires
        tree.wf(),
        catalog.wf(),
        id < tree.nodes@.len(),
        0 <= cw <= LEN_MAX,
        0 <= ch <= LEN_MAX,
    ensures
        ({
            let one = spec_abs_one(*tree, *catalog, *cache, cw, ch, id as int, parent as int, (cur_x, cur_y));
            &&& views_of(final(out)@) == views_of(old(out)@) + one.0
            &&& final(errs)@ == old(errs)@ + one.1
            &&& cur2 == one.2
        }),
{
    let ghost one = spec_abs_one(*tree, *catalog, *cache, cw, ch, id as int, parent as int, (cur_x, cur_y));
    match &tree.nodes[id].data {
        NodeData::Text(s) => {
            let families = font_families(tree, parent);
            let size = font_size(tree, parent);
            match TextRenderer::new(catalog, &families, size) {
                Err(_) => {
                    errs.push(EmitError { node: id, kind: EmitErrorKind::FontNotFound });
                    proof {
                        assert(views_of(out@) =~= views_of(old(out)@) + one.0);
                        assert(errs@ =~= old(errs)@ + one.1);
                    }
                    (cur_x, cur_y)
                },
                Ok(tr) => {
                    let color = text_color(tree, parent);
                    let cv = chars_of(s.as_str());
                    let y2 = sat_add(cur_y, tr.line_height);
                    let ghost face = tr.face;
                    proof {
                        assert(crate::tree::data_wf(tree.nodes@[id as int].data));
                        crate::text::lemma_line_height_bound(*face, size);
                        assert(tr.line_height == spec_line_height_i64(*face, size));
                    }
                    let run = tr.render_text(&cv);
                    out.push(PaintCommand::Text { run, x: cur_x, y: y2, color });
                    proof {
                        assert(views_of(out@) =~= views_of(old(out)@) + one.0);
                        assert(errs@ =~= old(errs)@ + one.1);
                    }
                    (cur_x, y2)
                },
            }
        },
        NodeData::Element { tag, attributes } => {
            if is_absolute(tree, id) {
                let insets = insets_of(tree, id);
                match resolve_box(&insets, cw, ch) {
                    Some(b) => {
                        proof {
                            crate::geom::lemma_resolved_box_bounds(insets, cw, ch);
                        }
                        if crate::strutil::str_eq_str(tag.as_str(), "img") {
                            match tree.get_attribute(id, "src") {
                                Some(src) => {
                                    match cache.get(src) {
                                        Some(img) => {
                                            out.push(PaintCommand::Image {
                                                src: src.clone(),
                                                img_width: img.width,
                                                img_height: img.height,
                                                x: b.x,
                                                y: b.y,
                                                box_width: b.width,
                                            });
                                            proof {
                                                assert(views_of(out@) =~= views_of(old(out)@)
                                                    + one.0);
                                            }
                                        },
                                        None => {},
                                    }
                                },
                                None => {},
                            }
                        } else {
                            let x2 = b.x + b.width;
                            let y2 = b.y + b.height;
                            let radii = radii_of(tree, id);
                            let color = bg_color(tree, id);
                            out.push(PaintCommand::RoundedRect { x: b.x, y: b.y, x2, y2, radii, color });
                            proof {
                                assert(views_of(out@) =~= views_of(old(out)@) + one.0);
                            }
                        }
                        proof {
                            assert(views_of(out@) =~= views_of(old(out)@) + one.0);
                            assert(errs@ =~= old(errs)@ + one.1);
                        }
                        (b.x, b.y)
                    },
                    None => {
                        proof {
                            assert(views_of(out@) =~= views_of(old(out)@) + one.0);
                            assert(errs@ =~= old(errs)@ + one.1);
                        }
                        (cur_x, cur_y)
                    },
                }
            } else {
                proof {
                    assert(views_of(out@) =~= views_of(old(out)@) + one.0);
                    assert(errs@ =~= old(errs)@ + one.1);
                }
                (cur_x, cur_y)
            }
        },
    }
}

/// Walks the subtree rooted at `id`: the node itself, then its children in
/// order, each child's walk starting from the cursor the node produced.
#[verifier::loop_isolation(false)]
fn emit_abs_from(
    tree: &RenderTree,
    catalog: &FontCatalog,
    cache: &ImageCache,
    cw: i64,
    ch: i64,
    id: usize,
    parent: usize,
    cur_x: i64,
    cur_y: i64,
    out: &mut Vec<PaintCommand>,
    errs: &mut Vec<EmitError>,
)
    requires
        tree.wf(),
        catalog.wf(),
        id < tree.nodes@.len(),
        0 <= cw <= LEN_MAX,
        0 <= ch <= LEN_MAX,
    ensures
        ({
            let sub = spec_emit_abs_from(*tree, *catalog, *cache, cw, ch, id as int, parent as int, (cur_x, cur_y));
            &&& views_of(final(out)@) == views_of(old(out)@) + sub.0
            &&& final(errs)@ == old(errs)@ + sub.1
        }),
    decreases tree.nodes@.len() - id, 1int,
{
    let ghost sub = spec_emit_abs_from(*tree, *catalog, *cache, cw, ch, id as int, parent as int, (cur_x, cur_y));
    let cur2 = emit_abs_one(tree, catalog, cache, cw, ch, id, parent, cur_x, cur_y, out, errs);
    emit_abs_kids(tree, catalog, cache, cw, ch, id, cur2.0, cur2.1, out, errs);
    proof {
        assert(views_of(out@) =~= views_of(old(out)@) + sub.0);
        assert(errs@ =~= old(errs)@ + sub.1);
    }
}

/// Walks the children of `id` in child-list order, handing each the same
/// inherited cursor.
#[verifier::loop_isolation(false)]
fn emit_abs_kids(
    tree: &RenderTree,
    catalog: &FontCatalog,
    cache: &ImageCache,
    cw: i64,
    ch: i64,
    id: usize,
    cur_x: i64,
    cur_y: i64,
    out: &mut Vec<PaintCommand>,
    errs: &mut Vec<EmitError>,
)
    requires
        tree.wf(),
        catalog.wf(),
        id < tree.nodes@.len(),
        0 <= cw <= LEN_MAX,
        0 <= ch <= LEN_MAX,
    ensures
        ({
            let kids = spec_emit_abs_kids(*tree, *catalog, *cache, cw, ch, id as int, 0, (cur_x, cur_y));
            &&& views_of(final(out)@) == views_of(old(out)@) + kids.0
            &&& final(errs)@ == old(errs)@ + kids.1
        }),
    decreases tree.nodes@.len() - id, 0int,
{
    let n = tree.nodes[id].children.len();
    let mut k: usize = 0;
    while k < n
        invariant
            k <= n,
            n == tree.nodes@[id as int].children@.len(),
            views_of(out@) + spec_emit_abs_kids(*tree, *catalog, *cache, cw, ch, id as int, k as int, (cur_x, cur_y)).0 == views_of(old(out)@) + spec_emit_abs_kids(*tree, *catalog, *cache, cw, ch, id as int, 0, (cur_x, cur_y)).0,
            errs@ + spec_emit_abs_kids(*tree, *catalog, *cache, cw, ch, id as int, k as int, (cur_x, cur_y)).1 == old(errs)@ + spec_emit_abs_kids(*tree, *catalog, *cache, cw, ch, id as int, 0, (cur_x, cur_y)).1,
        decreases n - k,
    {
        let child = tree.nodes[id].children[k];
        proof {
            assert(id < tree.nodes@[id as int].children@[k as int] < tree.nodes@.len());
        }
        emit_abs_from(tree, catalog, cache, cw, ch, child, id, cur_x, cur_y, out, errs);
        k += 1;
        proof {
            assert(views_of(out@) + spec_emit_abs_kids(*tree, *catalog, *cache, cw, ch, id as int, k as int, (cur_x, cur_y)).0 =~= views_of(old(out)@) + spec_emit_abs_kids(*tree, *catalog, *cache, cw, ch, id as int, 0, (cur_x, cur_y)).0);
            assert(errs@ + spec_emit_abs_kids(*tree, *catalog, *cache, cw, ch, id as int, k as int, (cur_x, cur_y)).1 =~= old(errs)@ + spec_emit_abs_kids(*tree, *catalog, *cache, cw, ch, id as int, 0, (cur_x, cur_y)).1);
        }
    }
    proof {
        assert(views_of(out@) =~= views_of(old(out)@) + spec_emit_abs_kids(*tree, *catalog, *cache, cw, ch, id as int, 0, (cur_x, cur_y)).0);
        assert(errs@ =~= old(errs)@ + spec_emit_abs_kids(*tree, *catalog, *cache, cw, ch, id as int, 0, (cur_x, cur_y)).1);
    }
}

/// Emits one frame in cursor-advancing mode: a depth-first, pre-order walk of
/// the root's children (the root itself is never painted), with per-node
/// errors collected rather than aborting the frame.
pub fn emit_absolute(
    tree: &RenderTree,
    catalog: &FontCatalog,
    cache: &ImageCache,
    cw: i64,
    ch: i64,
) -> (r: (Vec<PaintCommand>, Vec<EmitError>))
    requires
        tree.wf(),
        catalog.wf(),
        0 <= cw <= LEN_MAX,
        0 <= ch <= LEN_MAX,
    ensures
        views_of(r.0@) == spec_emit_absolute(*tree, *catalog, *cache, cw, ch).0,
        r.1@ == spec_emit_absolute(*tree, *catalog, *cache, cw, ch).1,
{
    let mut out: Vec<PaintCommand> = Vec::new();
    let mut errs: Vec<EmitError> = Vec::new();
    emit_abs_kids(tree, catalog, cache, cw, ch, 0, 0, 0, &mut out, &mut errs);
    proof {
        assert(views_of(out@) =~= spec_emit_absolute(*tree, *catalog, *cache, cw, ch).0);
        assert(errs@ =~= spec_emit_absolute(*tree, *catalog, *cache, cw, ch).1);
    }
    (out, errs)
}


// ---------------------------------------------------------------------------
// Externally-laid-out mode
// ---------------------------------------------------------------------------

/// Per-node geometry computed by the external layout engine in a separate
/// pass before paint: node id to absolute box, first entry wins.
#[derive(Debug)]
pub struct LayoutMap {
    pub entries: Vec<(usize, AbsBox)>,
}

/// The first geometry recorded for node `id`.
pub open spec fn spec_layout_get(entries: Seq<(usize, AbsBox)>, id: int) -> Option<AbsBox>
    decreases entries.len(),
{
    if entries.len() == 0 {
        None
    } else if entries[0].0 == id {
        Some(entries[0].1)
    } else {
        spec_layout_get(entries.drop_first(), id)
    }
}

impl LayoutMap {
    /// Geometry from a layout engine stays within the coordinate range the
    /// emitter's arithmetic relies on, with non-negative sizes.
    pub open spec fn wf(&self) -> bool {
        forall|i: int|
            0 <= i < self.entries@.len() ==> {
                let b = (#[trigger] self.entries@[i]).1;
                &&& -LEN_MAX <= b.x <= LEN_MAX
                &&& -LEN_MAX <= b.y <= LEN_MAX
                &&& 0 <= b.width <= LEN_MAX
                &&& 0 <= b.height <= LEN_MAX
            }
    }

    pub fn new() -> (m: LayoutMap)
        ensures
            m.wf(),
            m.entries@.len() == 0,
    {
        LayoutMap { entries: Vec::new() }
    }

    /// Records geometry for a node. An id recorded twice keeps its first
    /// entry.
    pub fn insert(&mut self, id: usize, b: AbsBox)
        requires
            old(self).wf(),
            -LEN_MAX <= b.x <= LEN_MAX,
            -LEN_MAX <= b.y <= LEN_MAX,
            0 <= b.width <= LEN_MAX,
            0 <= b.height <= LEN_MAX,
        ensures
            final(self).wf(),
            final(self).entries@ == old(self).entries@.push((id, b)),
    {
        self.entries.push((id, b));
    }

    /// The geometry of node `id`, when the layout pass recorded one.
    #[verifier::loop_isolation(false)]
    pub fn get(&self, id: usize) -> (r: Option<&AbsBox>)
        ensures
            match r {
                Some(b) => spec_layout_get(self.entries@, id as int) == Some(*b),
                None => spec_layout_get(self.entries@, id as int) is None,
            },
    {
        let n = self.entries.len();
        proof {
            assert(self.entries@.skip(0) =~= self.entries@);
        }
        let mut i: usize = 0;
        while i < n
            invariant
                i <= n,
                n == self.entries@.len(),
                spec_layout_get(self.entries@, id as int) == spec_layout_get(
                    self.entries@.skip(i as int),
                    id as int,
                ),
            decreases n - i,
        {
            proof {
                assert(self.entries@.skip(i as int)[0] == self.entries@[i as int]);
                assert(self.entries@.skip(i as int).drop_first() =~= self.entries@.skip(i + 1));
            }
            if self.entries[i].0 == id {
                return Some(&self.entries[i].1);
            }
            i += 1;
        }
        proof {
            assert(self.entries@.skip(n as int) =~= Seq::<(usize, AbsBox)>::empty());
        }
        None
    }
}

/// A recorded geometry is one of the map's entries, so it inherits the
/// map's bounds.
pub proof fn lemma_layout_get_bounds(layout: LayoutMap, id: int)
    requires
        layout.wf(),
    ensures
        spec_layout_get(layout.entries@, id) matches Some(b) ==> {
            &&& -LEN_MAX <= b.x <= LEN_MAX
            &&& -LEN_MAX <= b.y <= LEN_MAX
            &&& 0 <= b.width <= LEN_MAX
            &&& 0 <= b.height <= LEN_MAX
        },
{
    lemma_layout_get_in(layout.entries@, id);
}

proof fn lemma_layout_get_in(entries: Seq<(usize, AbsBox)>, id: int)
    ensures
        spec_layout_get(entries, id) matches Some(b) ==> exists|i: int|
            0 <= i < entries.len() && (#[trigger] entries[i]).1 == b,
    decreases entries.len(),
{
    if entries.len() > 0 && entries[0].0 != id {
        lemma_layout_get_in(entries.drop_first(), id);
        if spec_layout_get(entries, id) is Some {
            let b = spec_layout_get(entries, id)->Some_0;
            let i = choose|i: int|
                0 <= i < entries.drop_first().len() && (#[trigger] entries.drop_first()[i]).1
                    == b;
            assert(entries[i + 1] == entries.drop_first()[i]);
        }
    }
}

/// The per-node part of the laid-out walk: every node is painted at the
/// geometry the layout engine recorded for it; a node without geometry is a
/// per-node error. A box whose recorded width or height is zero paints
/// nothing. Text style still comes from the parent node.
pub open spec fn spec_laid_one(
    tree: RenderTree,
    catalog: FontCatalog,
    cache: ImageCache,
    layout: LayoutMap,
    id: int,
    parent: int,
) -> (Seq<SpecCommand>, Seq<EmitError>) {
    match spec_layout_get(layout.entries@, id) {
        None => (
            Seq::empty(),
            seq![EmitError { node: id as usize, kind: EmitErrorKind::NoGeometry }],
        ),
        Some(g) => match tree.nodes@[id].data {
            NodeData::Text(s) => {
                let families = spec_font_families(tree, parent);
                let size = spec_font_size(tree, parent);
                match spec_select_font(catalog.faces@, families) {
                    None => (
                        Seq::empty(),
                        seq![EmitError { node: id as usize, kind: EmitErrorKind::FontNotFound }],
                    ),
                    Some(fi) => {
                        let face = catalog.faces@[fi];
                        let cmd = SpecCommand::Text(
                            SpecText {
                                family: face.family@,
                                font_size: size,
                                glyphs: spec_shape(face, size, s@, false, 0, 0),
                                x: g.x,
                                y: g.y,
                                color: spec_text_color(tree, parent),
                            },
                        );
                        (seq![cmd], Seq::empty())
                    },
                }
            },
            NodeData::Element { tag, attributes } => {
                if g.width <= 0 || g.height <= 0 {
                    (Seq::empty(), Seq::empty())
                } else if tag@ == "img"@ {
                    match spec_find_attr(attributes@, "src"@) {
                        None => (
                            Seq::empty(),
                            seq![EmitError { node: id as usize, kind: EmitErrorKind::MissingSrc }],
                        ),
                        Some(src) => match spec_cache_get(cache.entries@, src@) {
                            None => (Seq::empty(), Seq::empty()),
                            Some(img) => (
                                seq![
                                    SpecCommand::Image {
                                        src: src@,
                                        img_width: img.width,
                                        img_height: img.height,
                                        x: g.x,
                                        y: g.y,
                                        box_width: g.width,
                                    },
                                ],
                                Seq::empty(),
                            ),
                        },
                    }
                } else {
                    (
                        seq![
                            SpecCommand::RoundedRect {
                                x: g.x,
                                y: g.y,
                                x2: (g.x + g.width) as i64,
                                y2: (g.y + g.height) as i64,
                                radii: spec_radii(tree, id),
                                color: spec_bg_color(tree, id),
                            },
                        ],
                        Seq::empty(),
                    )
                }
            },
        },
    }
}

/// The subtree rooted at `id` in laid-out mode, pre-order.
pub open spec fn spec_emit_laid_from(
    tree: RenderTree,
    catalog: FontCatalog,
    cache: ImageCache,
    layout: LayoutMap,
    id: int,
    parent: int,
) -> (Seq<SpecCommand>, Seq<EmitError>)
    decreases tree.nodes@.len() - id, 1int, 0int,
        when tree.wf() && 0 <= id < tree.nodes@.len()
{
    let one = spec_laid_one(tree, catalog, cache, layout, id, parent);
    let kids = spec_emit_laid_kids(tree, catalog, cache, layout, id, 0);
    (one.0 + kids.0, one.1 + kids.1)
}

/// The subtrees of the children of `id` from child `k` on.
pub open spec fn spec_emit_laid_kids(
    tree: RenderTree,
    catalog: FontCatalog,
    cache: ImageCache,
    layout: LayoutMap,
    id: int,
    k: int,
) -> (Seq<SpecCommand>, Seq<EmitError>)
    decreases tree.nodes@.len() - id, 0int, tree.nodes@[id].children@.len() - k,
        when tree.wf() && 0 <= id < tree.nodes@.len() && 0 <= k
{
    if k >= tree.nodes@[id].children@.len() {
        (Seq::empty(), Seq::empty())
    } else {
        let child = tree.nodes@[id].children@[k] as int;
        let sub = spec_emit_laid_from(tree, catalog, cache, layout, child, id);
        let rest = spec_emit_laid_kids(tree, catalog, cache, layout, id, k + 1);
        (sub.0 + rest.0, sub.1 + rest.1)
    }
}

/// The whole frame in laid-out mode: the root's children, the root itself
/// never painted.
pub open spec fn spec_emit_laid_out(
    tree: RenderTree,
    catalog: FontCatalog,
    cache: ImageCache,
    layout: LayoutMap,
) -> (Seq<SpecCommand>, Seq<EmitError>) {
    spec_emit_laid_kids(tree, catalog, cache, layout, 0, 0)
}

/// Emits one node's own primitive in laid-out mode.
#[verifier::loop_isolation(false)]
fn emit_laid_one(
    tree: &RenderTree,
    catalog: &FontCatalog,
    cache: &ImageCache,
    layout: &LayoutMap,
    id: usize,
    parent: usize,
    out: &mut Vec<PaintCommand>,
    errs: &mut Vec<EmitError>,
)
    requires
        tree.wf(),
        catalog.wf(),
        layout.wf(),
        id < tree.nodes@.len(),
    ensures
        ({
            let one = spec_laid_one(*tree, *catalog, *cache, *layout, id as int, parent as int);
            &&& views_of(final(out)@) == views_of(old(out)@) + one.0
            &&& final(errs)@ == old(errs)@ + one.1
        }),
{
    let ghost one = spec_laid_one(*tree, *catalog, *cache, *layout, id as int, parent as int);
    proof {
        lemma_layout_get_bounds(*layout, id as int);
    }
    let Some(g) = layout.get(id) else {
        errs.push(EmitError { node: id, kind: EmitErrorKind::NoGeometry });
        proof {
            assert(views_of(out@) =~= views_of(old(out)@) + one.0);
            assert(errs@ =~= old(errs)@ + one.1);
        }
        return ;
    };
    match &tree.nodes[id].data {
        NodeData::Text(s) => {
            let families = font_families(tree, parent);
            let size = font_size(tree, parent);
            match TextRenderer::new(catalog, &families, size) {
                Err(_) => {
                    errs.push(EmitError { node: id, kind: EmitErrorKind::FontNotFound });
                    proof {
                        assert(views_of(out@) =~= views_of(old(out)@) + one.0);
                        assert(errs@ =~= old(errs)@ + one.1);
                    }
                },
                Ok(tr) => {
                    let color = text_color(tree, parent);
                    let cv = chars_of(s.as_str());
                    proof {
                        assert(crate::tree::data_wf(tree.nodes@[id as int].data));
                    }
                    let run = tr.render_text(&cv);
                    out.push(PaintCommand::Text { run, x: g.x, y: g.y, color });
                    proof {
                        assert(views_of(out@) =~= views_of(old(out)@) + one.0);
                        assert(errs@ =~= old(errs)@ + one.1);
                    }
                },
            }
        },
        NodeData::Element { tag, attributes } => {
            if g.width <= 0 || g.height <= 0 {
                proof {
                    assert(views_of(out@) =~= views_of(old(out)@) + one.0);
                    assert(errs@ =~= old(errs)@ + one.1);
                }
            } else if crate::strutil::str_eq_str(tag.as_str(), "img") {
                match tree.get_attribute(id, "src") {
                    None => {
                        errs.push(EmitError { node: id, kind: EmitErrorKind::MissingSrc });
                        proof {
                            assert(views_of(out@) =~= views_of(old(out)@) + one.0);
                            assert(errs@ =~= old(errs)@ + one.1);
                        }
                    },
                    Some(src) => {
                        match cache.get(src) {
                            Some(img) => {
                                out.push(PaintCommand::Image {
                                    src: src.clone(),
                                    img_width: img.width,
                                    img_height: img.height,
                                    x: g.x,
                                    y: g.y,
                                    box_width: g.width,
                                });
                            },
                            None => {},
                        }
                        proof {
                            assert(views_of(out@) =~= views_of(old(out)@) + one.0);
                            assert(errs@ =~= old(errs)@ + one.1);
                        }
                    },
                }
            } else {
                let x2 = g.x + g.width;
                let y2 = g.y + g.height;
                let radii = radii_of(tree, id);
                let color = bg_color(tree, id);
                out.push(PaintCommand::RoundedRect { x: g.x, y: g.y, x2, y2, radii, color });
                proof {
                    assert(views_of(out@) =~= views_of(old(out)@) + one.0);
                    assert(errs@ =~= old(errs)@ + one.1);
                }
            }
        },
    }
}

/// Walks the subtree rooted at `id` in laid-out mode.
#[verifier::loop_isolation(false)]
fn emit_laid_from(
    tree: &RenderTree,
    catalog: &FontCatalog,
    cache: &ImageCache,
    layout: &LayoutMap,
    id: usize,
    parent: usize,
    out: &mut Vec<PaintCommand>,
    errs: &mut Vec<EmitError>,
)
    requires
        tree.wf(),
        catalog.wf(),
        layout.wf(),
        id < tree.nodes@.len(),
    ensures
        ({
            let sub = spec_emit_laid_from(*tree, *catalog, *cache, *layout, id as int, parent as int);
            &&& views_of(final(out)@) == views_of(old(out)@) + sub.0
            &&& final(errs)@ == old(errs)@ + sub.1
        }),
    decreases tree.nodes@.len() - id, 1int,
{
    let ghost sub = spec_emit_laid_from(*tree, *catalog, *cache, *layout, id as int, parent as int);
    emit_laid_one(tree, catalog, cache, layout, id, parent, out, errs);
    emit_laid_kids(tree, catalog, cache, layout, id, out, errs);
    proof {
        assert(views_of(out@) =~= views_of(old(out)@) + sub.0);
        assert(errs@ =~= old(errs)@ + sub.1);
    }
}

/// Walks the children of `id` in order, laid-out mode.
#[verifier::loop_isolation(false)]
fn emit_laid_kids(
    tree: &RenderTree,
    catalog: &FontCatalog,
    cache: &ImageCache,
    layout: &LayoutMap,
    id: usize,
    out: &mut Vec<PaintCommand>,
    errs: &mut Vec<EmitError>,
)
    requires
        tree.wf(),
        catalog.wf(),
        layout.wf(),
        id < tree.nodes@.len(),
    ensures
        ({
            let kids = spec_emit_laid_kids(*tree, *catalog, *cache, *layout, id as int, 0);
            &&& views_of(final(out)@) == views_of(old(out)@) + kids.0
            &&& final(errs)@ == old(errs)@ + kids.1
        }),
    decreases tree.nodes@.len() - id, 0int,
{
    let n = tree.nodes[id].children.len();
    let mut k: usize = 0;
    while k < n
        invariant
            k <= n,
            n == tree.nodes@[id as int].children@.len(),
            views_of(out@) + spec_emit_laid_kids(*tree, *catalog, *cache, *layout, id as int, k as int).0 == views_of(old(out)@) + spec_emit_laid_kids(*tree, *catalog, *cache, *layout, id as int, 0).0,
            errs@ + spec_emit_laid_kids(*tree, *catalog, *cache, *layout, id as int, k as int).1 == old(errs)@ + spec_emit_laid_kids(*tree, *catalog, *cache, *layout, id as int, 0).1,
        decreases n - k,
    {
        let child = tree.nodes[id].children[k];
        proof {
            assert(id < tree.nodes@[id as int].children@[k as int] < tree.nodes@.len());
        }
        emit_laid_from(tree, catalog, cache, layout, child, id, out, errs);
        k += 1;
        proof {
            assert(views_of(out@) + spec_emit_laid_kids(*tree, *catalog, *cache, *layout, id as int, k as int).0 =~= views_of(old(out)@) + spec_emit_laid_kids(*tree, *catalog, *cache, *layout, id as int, 0).0);
            assert(errs@ + spec_emit_laid_kids(*tree, *catalog, *cache, *layout, id as int, k as int).1 =~= old(errs)@ + spec_emit_laid_kids(*tree, *catalog, *cache, *layout, id as int, 0).1);
        }
    }
    proof {
        assert(views_of(out@) =~= views_of(old(out)@) + spec_emit_laid_kids(*tree, *catalog, *cache, *layout, id as int, 0).0);
        assert(errs@ =~= old(errs)@ + spec_emit_laid_kids(*tree, *catalog, *cache, *layout, id as int, 0).1);
    }
}

/// Emits one frame in laid-out mode: a depth-first, pre-order walk of the
/// root's children at the geometry the layout engine recorded.
pub fn emit_laid_out(
    tree: &RenderTree,
    catalog: &FontCatalog,
    cache: &ImageCache,
    layout: &LayoutMap,
) -> (r: (Vec<PaintCommand>, Vec<EmitError>))
    requires
        tree.wf(),
        catalog.wf(),
        layout.wf(),
    ensures
        views_of(r.0@) == spec_emit_laid_out(*tree, *catalog, *cache, *layout).0,
        r.1@ == spec_emit_laid_out(*tree, *catalog, *cache, *layout).1,
{
    let mut out: Vec<PaintCommand> = Vec::new();
    let mut errs: Vec<EmitError> = Vec::new();
    emit_laid_kids(tree, catalog, cache, layout, 0, &mut out, &mut errs);
    proof {
        assert(views_of(out@) =~= spec_emit_laid_out(*tree, *catalog, *cache, *layout).0);
        assert(errs@ =~= spec_emit_laid_out(*tree, *catalog, *cache, *layout).1);
    }
    (out, errs)
}

// ---------------------------------------------------------------------------
// Whole frames
// ---------------------------------------------------------------------------

/// The frame background: an opaque black rectangle covering the viewport.
pub open spec fn spec_background(cw: i64, ch: i64) -> SpecCommand {
    SpecCommand::RoundedRect {
        x: 0,
        y: 0,
        x2: cw,
        y2: ch,
        radii: Radii { tl: 0, tr: 0, br: 0, bl: 0 },
        color: Rgba { r: 0, g: 0, b: 0, a: 255 },
    }
}

/// A full cursor-advancing frame: the black background first, then the tree's
/// commands.
pub fn render_frame_absolute(
    tree: &RenderTree,
    catalog: &FontCatalog,
    cache: &ImageCache,
    cw: i64,
    ch: i64,
) -> (r: (Vec<PaintCommand>, Vec<EmitError>))
    requires
        tree.wf(),
        catalog.wf(),
        0 <= cw <= LEN_MAX,
        0 <= ch <= LEN_MAX,
    ensures
        views_of(r.0@) == seq![spec_background(cw, ch)] + spec_emit_absolute(*tree, *catalog, *cache, cw, ch).0,
        r.1@ == spec_emit_absolute(*tree, *catalog, *cache, cw, ch).1,
{
    let mut out: Vec<PaintCommand> = Vec::new();
    let mut errs: Vec<EmitError> = Vec::new();
    out.push(PaintCommand::RoundedRect {
        x: 0,
        y: 0,
        x2: cw,
        y2: ch,
        radii: Radii { tl: 0, tr: 0, br: 0, bl: 0 },
        color: Rgba { r: 0, g: 0, b: 0, a: 255 },
    });
    emit_abs_kids(tree, catalog, cache, cw, ch, 0, 0, 0, &mut out, &mut errs);
    proof {
        assert(views_of(out@) =~= seq![spec_background(cw, ch)] + spec_emit_absolute(*tree, *catalog, *cache, cw, ch).0);
        assert(errs@ =~= spec_emit_absolute(*tree, *catalog, *cache, cw, ch).1);
    }
    (out, errs)
}

/// A full laid-out frame: the black background first, then the tree's
/// commands.
pub fn render_frame_laid_out(
    tree: &RenderTree,
    catalog: &FontCatalog,
    cache: &ImageCache,
    layout: &LayoutMap,
    cw: i64,
    ch: i64,
) -> (r: (Vec<PaintCommand>, Vec<EmitError>))
    requires
        tree.wf(),
        catalog.wf(),
        layout.wf(),
    ensures
        views_of(r.0@) == seq![spec_background(cw, ch)] + spec_emit_laid_out(*tree, *catalog, *cache, *layout).0,
        r.1@ == spec_emit_laid_out(*tree, *catalog, *cache, *layout).1,
{
    let mut out: Vec<PaintCommand> = Vec::new();
    let mut errs: Vec<EmitError> = Vec::new();
    out.push(PaintCommand::RoundedRect {
        x: 0,
        y: 0,
        x2: cw,
        y2: ch,
        radii: Radii { tl: 0, tr: 0, br: 0, bl: 0 },
        color: Rgba { r: 0, g: 0, b: 0, a: 255 },
    });
    emit_laid_kids(tree, catalog, cache, layout, 0, &mut out, &mut errs);
    proof {
        assert(views_of(out@) =~= seq![spec_background(cw, ch)] + spec_emit_laid_out(*tree, *catalog, *cache, *layout).0);
        assert(errs@ =~= spec_emit_laid_out(*tree, *catalog, *cache, *layout).1);
    }
    (out, errs)
}


// ---------------------------------------------------------------------------
// Laws of the emitted sequences
// ---------------------------------------------------------------------------

/// No degenerate primitive: rectangles span a positive area and images map
/// onto a positive box width.
pub open spec fn cmd_positive(c: SpecCommand) -> bool {
    match c {
        SpecCommand::RoundedRect { x, y, x2, y2, .. } => x2 > x && y2 > y,
        SpecCommand::Image { box_width, .. } => box_width > 0,
        SpecCommand::Text(_) => true,
    }
}

pub open spec fn all_positive(s: Seq<SpecCommand>) -> bool {
    forall|i: int| 0 <= i < s.len() ==> cmd_positive(#[trigger] s[i])
}

proof fn lemma_abs_one_positive(
    tree: RenderTree,
    catalog: FontCatalog,
    cache: ImageCache,
    cw: i64,
    ch: i64,
    id: int,
    parent: int,
    cur: (i64, i64),
)
    requires
        tree.wf(),
        0 <= id < tree.nodes@.len(),
        0 <= cw <= LEN_MAX,
        0 <= ch <= LEN_MAX,
    ensures
        all_positive(spec_abs_one(tree, catalog, cache, cw, ch, id, parent, cur).0),
{
    match tree.nodes@[id].data {
        NodeData::Text(s) => {
        },
        NodeData::Element { tag, attributes } => {
            crate::geom::lemma_resolved_box_bounds(spec_insets(tree, id), cw, ch);
        },
    }
}

proof fn lemma_abs_from_positive(
    tree: RenderTree,
    catalog: FontCatalog,
    cache: ImageCache,
    cw: i64,
    ch: i64,
    id: int,
    parent: int,
    cur: (i64, i64),
)
    requires
        tree.wf(),
        0 <= id < tree.nodes@.len(),
        0 <= cw <= LEN_MAX,
        0 <= ch <= LEN_MAX,
    ensures
        all_positive(spec_emit_abs_from(tree, catalog, cache, cw, ch, id, parent, cur).0),
    decreases tree.nodes@.len() - id, 1int, 0int,
{
    lemma_abs_one_positive(tree, catalog, cache, cw, ch, id, parent, cur);
    let one = spec_abs_one(tree, catalog, cache, cw, ch, id, parent, cur);
    lemma_abs_kids_positive(tree, catalog, cache, cw, ch, id, 0, one.2);
}

proof fn lemma_abs_kids_positive(
    tree: RenderTree,
    catalog: FontCatalog,
    cache: ImageCache,
    cw: i64,
    ch: i64,
    id: int,
    k: int,
    cur: (i64, i64),
)
    requires
        tree.wf(),
        0 <= id < tree.nodes@.len(),
        0 <= k,
        0 <= cw <= LEN_MAX,
        0 <= ch <= LEN_MAX,
    ensures
        all_positive(spec_emit_abs_kids(tree, catalog, cache, cw, ch, id, k, cur).0),
    decreases tree.nodes@.len() - id, 0int, tree.nodes@[id].children@.len() - k,
{
    if k < tree.nodes@[id].children@.len() {
        let child = tree.nodes@[id].children@[k] as int;
        lemma_abs_from_positive(tree, catalog, cache, cw, ch, child, id, cur);
        lemma_abs_kids_positive(tree, catalog, cache, cw, ch, id, k + 1, cur);
    }
}

/// A box whose width or height resolves to zero (or inverts) is never emitted
/// as a paint command, in cursor-advancing mode: every rectangle in the
/// emitted sequence spans a positive area and every image maps onto a
/// positive box width.
pub proof fn lemma_no_degenerate_box_absolute(
    tree: RenderTree,
    catalog: FontCatalog,
    cache: ImageCache,
    cw: i64,
    ch: i64,
)
    requires
        tree.wf(),
        0 <= cw <= LEN_MAX,
        0 <= ch <= LEN_MAX,
    ensures
        all_positive(spec_emit_absolute(tree, catalog, cache, cw, ch).0),
{
    lemma_abs_kids_positive(tree, catalog, cache, cw, ch, 0, 0, (0i64, 0i64));
}

proof fn lemma_laid_one_positive(
    tree: RenderTree,
    catalog: FontCatalog,
    cache: ImageCache,
    layout: LayoutMap,
    id: int,
    parent: int,
)
    requires
        tree.wf(),
        layout.wf(),
        0 <= id < tree.nodes@.len(),
    ensures
        all_positive(spec_laid_one(tree, catalog, cache, layout, id, parent).0),
{
    lemma_layout_get_bounds(layout, id);
}

proof fn lemma_laid_from_positive(
    tree: RenderTree,
    catalog: FontCatalog,
    cache: ImageCache,
    layout: LayoutMap,
    id: int,
    parent: int,
)
    requires
        tree.wf(),
        layout.wf(),
        0 <= id < tree.nodes@.len(),
    ensures
        all_positive(spec_emit_laid_from(tree, catalog, cache, layout, id, parent).0),
    decreases tree.nodes@.len() - id, 1int, 0int,
{
    lemma_laid_one_positive(tree, catalog, cache, layout, id, parent);
    lemma_laid_kids_positive(tree, catalog, cache, layout, id, 0);
}

proof fn lemma_laid_kids_positive(
    tree: RenderTree,
    catalog: FontCatalog,
    cache: ImageCache,
    layout: LayoutMap,
    id: int,
    k: int,
)
    requires
        tree.wf(),
        layout.wf(),
        0 <= id < tree.nodes@.len(),
        0 <= k,
    ensures
        all_positive(spec_emit_laid_kids(tree, catalog, cache, layout, id, k).0),
    decreases tree.nodes@.len() - id, 0int, tree.nodes@[id].children@.len() - k,
{
    if k < tree.nodes@[id].children@.len() {
        let child = tree.nodes@[id].children@[k] as int;
        lemma_laid_from_positive(tree, catalog, cache, layout, child, id);
        lemma_laid_kids_positive(tree, catalog, cache, layout, id, k + 1);
    }
}

/// The laid-out counterpart: a box whose recorded width or height is zero is
/// never emitted as a paint command.
pub proof fn lemma_no_degenerate_box_laid_out(
    tree: RenderTree,
    catalog: FontCatalog,
    cache: ImageCache,
    layout: LayoutMap,
)
    requires
        tree.wf(),
        layout.wf(),
    ensures
        all_positive(spec_emit_laid_out(tree, catalog, cache, layout).0),
{
    lemma_laid_kids_positive(tree, catalog, cache, layout, 0, 0);
}

/// Pre-order traversal: a subtree's commands are the node's own commands
/// first, then each child subtree's commands, in child-list order — and the
/// same for the errors. Whether or not a node painted anything, its children
/// are still walked.
pub proof fn lemma_preorder_absolute(
    tree: RenderTree,
    catalog: FontCatalog,
    cache: ImageCache,
    cw: i64,
    ch: i64,
    id: int,
    parent: int,
    cur: (i64, i64),
)
    requires
        tree.wf(),
        0 <= id < tree.nodes@.len(),
    ensures
        ({
            let one = spec_abs_one(tree, catalog, cache, cw, ch, id, parent, cur);
            let kids = spec_emit_abs_kids(tree, catalog, cache, cw, ch, id, 0, one.2);
            spec_emit_abs_from(tree, catalog, cache, cw, ch, id, parent, cur) == (
                one.0 + kids.0,
                one.1 + kids.1,
            )
        }),
        forall|k: int|
            0 <= k < tree.nodes@[id].children@.len() ==> #[trigger] spec_emit_abs_kids(
                tree,
                catalog,
                cache,
                cw,
                ch,
                id,
                k,
                cur,
            ).0 == spec_emit_abs_from(
                tree,
                catalog,
                cache,
                cw,
                ch,
                tree.nodes@[id].children@[k] as int,
                id,
                cur,
            ).0 + spec_emit_abs_kids(tree, catalog, cache, cw, ch, id, k + 1, cur).0,
{
}

/// Pre-order traversal in laid-out mode: the node's own commands first, then
/// each child subtree, in child-list order.
pub proof fn lemma_preorder_laid_out(
    tree: RenderTree,
    catalog: FontCatalog,
    cache: ImageCache,
    layout: LayoutMap,
    id: int,
    parent: int,
)
    requires
        tree.wf(),
        0 <= id < tree.nodes@.len(),
    ensures
        ({
            let one = spec_laid_one(tree, catalog, cache, layout, id, parent);
            let kids = spec_emit_laid_kids(tree, catalog, cache, layout, id, 0);
            spec_emit_laid_from(tree, catalog, cache, layout, id, parent) == (
                one.0 + kids.0,
                one.1 + kids.1,
            )
        }),
        forall|k: int|
            0 <= k < tree.nodes@[id].children@.len() ==> #[trigger] spec_emit_laid_kids(
                tree,
                catalog,
                cache,
                layout,
                id,
                k,
            ).0 == spec_emit_laid_from(
                tree,
                catalog,
                cache,
                layout,
                tree.nodes@[id].children@[k] as int,
                id,
            ).0 + spec_emit_laid_kids(tree, catalog, cache, layout, id, k + 1).0,
{
}

/// An `img` node whose image is unavailable — no `src` attribute, or a path
/// the cache has no entry for (unreadable, undecodable or simply not loaded)
/// — produces zero paint commands of its own, but its subtree is still
/// walked: the subtree's commands are exactly its children's.
pub proof fn lemma_unavailable_image_absolute(
    tree: RenderTree,
    catalog: FontCatalog,
    cache: ImageCache,
    cw: i64,
    ch: i64,
    id: int,
    parent: int,
    cur: (i64, i64),
)
    requires
        tree.wf(),
        0 <= id < tree.nodes@.len(),
        tree.nodes@[id].data matches NodeData::Element { tag, attributes } && tag@ == "img"@ && (
        match spec_find_attr(attributes@, "src"@) {
            None => true,
            Some(src) => spec_cache_get(cache.entries@, src@) is None,
        }),
    ensures
        spec_abs_one(tree, catalog, cache, cw, ch, id, parent, cur).0 == Seq::<
            SpecCommand,
        >::empty(),
        spec_emit_abs_from(tree, catalog, cache, cw, ch, id, parent, cur).0
            == spec_emit_abs_kids(
            tree,
            catalog,
            cache,
            cw,
            ch,
            id,
            0,
            spec_abs_one(tree, catalog, cache, cw, ch, id, parent, cur).2,
        ).0,
{
    let one = spec_abs_one(tree, catalog, cache, cw, ch, id, parent, cur);
    let kids = spec_emit_abs_kids(tree, catalog, cache, cw, ch, id, 0, one.2);
    assert(one.0 =~= Seq::<SpecCommand>::empty());
    assert(one.0 + kids.0 =~= kids.0);
}

/// The laid-out counterpart of the unavailable-image law.
pub proof fn lemma_unavailable_image_laid_out(
    tree: RenderTree,
    catalog: FontCatalog,
    cache: ImageCache,
    layout: LayoutMap,
    id: int,
    parent: int,
)
    requires
        tree.wf(),
        0 <= id < tree.nodes@.len(),
        tree.nodes@[id].data matches NodeData::Element { tag, attributes } && tag@ == "img"@ && (
        match spec_find_attr(attributes@, "src"@) {
            None => true,
            Some(src) => spec_cache_get(cache.entries@, src@) is None,
        }),
    ensures
        spec_laid_one(tree, catalog, cache, layout, id, parent).0 == Seq::<SpecCommand>::empty(),
        spec_emit_laid_from(tree, catalog, cache, layout, id, parent).0 == spec_emit_laid_kids(
            tree,
            catalog,
            cache,
            layout,
            id,
            0,
        ).0,
{
    let one = spec_laid_one(tree, catalog, cache, layout, id, parent);
    let kids = spec_emit_laid_kids(tree, catalog, cache, layout, id, 0);
    assert(one.0 =~= Seq::<SpecCommand>::empty());
    assert(one.0 + kids.0 =~= kids.0);
}

} // verus!
