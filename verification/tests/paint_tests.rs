use render_bridge::geom::AbsBox;
use render_bridge::image::ImageCache;
use render_bridge::paint::{
    emit_absolute, emit_laid_out, render_frame_absolute, EmitError, EmitErrorKind, LayoutMap,
    PaintCommand,
};
use render_bridge::style::{CssValue, Property, Radii, Rgba};
use render_bridge::text::{FontCatalog, FontFace, GlyphEntry};
use render_bridge::tree::{NodeData, RenderTree};

use std::io::Cursor;

fn prop(name: &str, value: &str) -> Property {
    Property::new(
        String::from(name),
        CssValue::CompositeString(String::from(value)),
    )
}

fn element(tag: &str) -> NodeData {
    NodeData::Element { tag: String::from(tag), attributes: Vec::new() }
}

fn img_with_src(src: &str) -> NodeData {
    NodeData::Element {
        tag: String::from("img"),
        attributes: vec![(String::from("src"), String::from(src))],
    }
}

fn abs_box_props(top: &str, left: &str, w: &str, h: &str, color: &str) -> Vec<Property> {
    vec![
        prop("position", "absolute"),
        prop("top", top),
        prop("left", left),
        prop("width", w),
        prop("height", h),
        prop("background-color", color),
    ]
}

fn demo_catalog() -> FontCatalog {
    let mut c = FontCatalog::new();
    c.add_face(FontFace::new(
        String::from("Arial"),
        1000,
        800,
        -200,
        0,
        500,
        vec![GlyphEntry { ch: 'A', glyph_id: 1, advance: 600 }],
    ));
    c
}

fn png_bytes() -> Vec<u8> {
    let mut img = image::RgbaImage::new(4, 2);
    for p in img.pixels_mut() {
        *p = image::Rgba([9, 9, 9, 255]);
    }
    let mut buf: Vec<u8> = Vec::new();
    img.write_to(&mut Cursor::new(&mut buf), image::ImageOutputFormat::Png)
        .unwrap();
    buf
}

#[test]
fn preorder_box_then_its_text_then_sibling() {
    // root -> [box1 -> [text1], box2]
    let mut tree = RenderTree::new(element("html"), Vec::new());
    let box1 = tree.add_node(0, element("div"), abs_box_props("0px", "0px", "100px", "50px", "red"));
    let _text1 = tree.add_node(box1, NodeData::Text(String::from("A")), Vec::new());
    let _box2 = tree.add_node(0, element("div"), abs_box_props("10px", "10px", "20px", "20px", "blue"));
    let catalog = demo_catalog();
    let cache = ImageCache::new();
    let (cmds, errs) = emit_absolute(&tree, &catalog, &cache, 200, 100);
    assert!(errs.is_empty());
    assert_eq!(cmds.len(), 3);
    match &cmds[0] {
        PaintCommand::RoundedRect { x, y, x2, y2, color, .. } => {
            assert_eq!((*x, *y, *x2, *y2), (0, 0, 100, 50));
            assert_eq!(*color, Rgba { r: 255, g: 0, b: 0, a: 255 });
        }
        other => panic!("expected box1 first, got {:?}", other),
    }
    match &cmds[1] {
        PaintCommand::Text { run, x, y, color } => {
            // the cursor starts at box1's corner and advances one line height:
            // (800 + 200) * 12 / 1000 = 12 for the default font size
            assert_eq!((*x, *y), (0, 12));
            assert_eq!(*color, Rgba { r: 255, g: 255, b: 255, a: 255 });
            assert_eq!(run.font_size, 12);
            assert_eq!(run.glyphs.len(), 1);
            assert_eq!(run.glyphs[0].glyph_id, 1);
        }
        other => panic!("expected text1 second, got {:?}", other),
    }
    match &cmds[2] {
        PaintCommand::RoundedRect { x, y, x2, y2, color, .. } => {
            assert_eq!((*x, *y, *x2, *y2), (10, 10, 30, 30));
            assert_eq!(*color, Rgba { r: 0, g: 0, b: 255, a: 255 });
        }
        other => panic!("expected box2 last, got {:?}", other),
    }
}

#[test]
fn zero_size_box_is_never_emitted() {
    let mut tree = RenderTree::new(element("html"), Vec::new());
    let _zero = tree.add_node(0, element("div"), abs_box_props("0px", "0px", "0px", "50px", "red"));
    let _ok = tree.add_node(0, element("div"), abs_box_props("1px", "1px", "5px", "5px", "lime"));
    let catalog = demo_catalog();
    let cache = ImageCache::new();
    let (cmds, errs) = emit_absolute(&tree, &catalog, &cache, 200, 100);
    assert!(errs.is_empty());
    assert_eq!(cmds.len(), 1);
    match &cmds[0] {
        PaintCommand::RoundedRect { x, .. } => assert_eq!(*x, 1),
        other => panic!("expected only the non-degenerate box, got {:?}", other),
    }
}

#[test]
fn unreadable_image_skips_the_node_but_not_its_siblings() {
    // the cache has no entry for the src: the img node paints nothing,
    // traversal still paints the following sibling
    let mut tree = RenderTree::new(element("html"), Vec::new());
    let img = tree.add_node(
        0,
        img_with_src("missing.png"),
        abs_box_props("0px", "0px", "10px", "10px", "red"),
    );
    let _under_img = tree.add_node(img, element("div"), abs_box_props("2px", "2px", "3px", "3px", "teal"));
    let _sib = tree.add_node(0, element("div"), abs_box_props("5px", "5px", "5px", "5px", "navy"));
    let catalog = demo_catalog();
    let cache = ImageCache::new();
    let (cmds, errs) = emit_absolute(&tree, &catalog, &cache, 200, 100);
    assert!(errs.is_empty());
    // the img itself is skipped; its child and its sibling still paint
    assert_eq!(cmds.len(), 2);
    match &cmds[0] {
        PaintCommand::RoundedRect { x, y, .. } => assert_eq!((*x, *y), (2, 2)),
        other => panic!("expected the img node's child, got {:?}", other),
    }
    match &cmds[1] {
        PaintCommand::RoundedRect { x, y, .. } => assert_eq!((*x, *y), (5, 5)),
        other => panic!("expected the sibling box, got {:?}", other),
    }
}

#[test]
fn cached_image_is_emitted_scaled_to_its_box() {
    let mut tree = RenderTree::new(element("html"), Vec::new());
    let _img = tree.add_node(
        0,
        img_with_src("logo.png"),
        abs_box_props("3px", "4px", "40px", "20px", "red"),
    );
    let catalog = demo_catalog();
    let mut cache = ImageCache::new();
    let path = String::from("logo.png");
    cache.get_or_decode(&path, &png_bytes()).unwrap();
    let (cmds, errs) = emit_absolute(&tree, &catalog, &cache, 200, 100);
    assert!(errs.is_empty());
    assert_eq!(cmds.len(), 1);
    match &cmds[0] {
        PaintCommand::Image { src, img_width, img_height, x, y, box_width } => {
            assert_eq!(src, "logo.png");
            assert_eq!((*img_width, *img_height), (4, 2));
            assert_eq!((*x, *y), (4, 3));
            assert_eq!(*box_width, 40);
        }
        other => panic!("expected an image command, got {:?}", other),
    }
}

#[test]
fn missing_font_is_surfaced_but_does_not_stop_the_walk() {
    let mut tree = RenderTree::new(element("html"), Vec::new());
    let holder = tree.add_node(0, element("div"), vec![prop("font-family", "NoSuchFamily")]);
    let text = tree.add_node(holder, NodeData::Text(String::from("A")), Vec::new());
    let _sib = tree.add_node(0, element("div"), abs_box_props("1px", "1px", "2px", "2px", "red"));
    let catalog = demo_catalog();
    let cache = ImageCache::new();
    let (cmds, errs) = emit_absolute(&tree, &catalog, &cache, 200, 100);
    assert_eq!(errs, vec![EmitError { node: text, kind: EmitErrorKind::FontNotFound }]);
    assert_eq!(cmds.len(), 1);
}

#[test]
fn non_absolute_elements_paint_nothing_in_cursor_mode() {
    let mut tree = RenderTree::new(element("html"), Vec::new());
    let _plain = tree.add_node(0, element("div"), vec![prop("background-color", "red")]);
    let catalog = demo_catalog();
    let cache = ImageCache::new();
    let (cmds, errs) = emit_absolute(&tree, &catalog, &cache, 200, 100);
    assert!(errs.is_empty());
    assert!(cmds.is_empty());
}

#[test]
fn frame_starts_with_the_black_background() {
    let tree = RenderTree::new(element("html"), Vec::new());
    let catalog = demo_catalog();
    let cache = ImageCache::new();
    let (cmds, _) = render_frame_absolute(&tree, &catalog, &cache, 200, 100);
    assert_eq!(cmds.len(), 1);
    assert_eq!(
        cmds[0],
        PaintCommand::RoundedRect {
            x: 0,
            y: 0,
            x2: 200,
            y2: 100,
            radii: Radii { tl: 0, tr: 0, br: 0, bl: 0 },
            color: Rgba { r: 0, g: 0, b: 0, a: 255 },
        }
    );
}

#[test]
fn laid_out_mode_paints_every_covered_node() {
    let mut tree = RenderTree::new(element("html"), Vec::new());
    let div = tree.add_node(
        0,
        element("div"),
        vec![prop("background-color", "green"), prop("border-radius", "4px")],
    );
    let text = tree.add_node(div, NodeData::Text(String::from("A")), Vec::new());
    let mut layout = LayoutMap::new();
    layout.insert(div, AbsBox { x: 10, y: 20, width: 30, height: 40 });
    layout.insert(text, AbsBox { x: 12, y: 22, width: 10, height: 10 });
    let catalog = demo_catalog();
    let cache = ImageCache::new();
    let (cmds, errs) = emit_laid_out(&tree, &catalog, &cache, &layout);
    assert!(errs.is_empty());
    assert_eq!(cmds.len(), 2);
    match &cmds[0] {
        PaintCommand::RoundedRect { x, y, x2, y2, radii, color } => {
            assert_eq!((*x, *y, *x2, *y2), (10, 20, 40, 60));
            assert_eq!(*radii, Radii { tl: 4, tr: 4, br: 4, bl: 4 });
            assert_eq!(*color, Rgba { r: 0, g: 128, b: 0, a: 255 });
        }
        other => panic!("expected the div's box, got {:?}", other),
    }
    match &cmds[1] {
        PaintCommand::Text { x, y, .. } => assert_eq!((*x, *y), (12, 22)),
        other => panic!("expected the text run, got {:?}", other),
    }
}

#[test]
fn laid_out_mode_reports_missing_geometry_and_src() {
    let mut tree = RenderTree::new(element("html"), Vec::new());
    let uncovered = tree.add_node(0, element("div"), Vec::new());
    let bare_img = tree.add_node(0, element("img"), Vec::new());
    let mut layout = LayoutMap::new();
    layout.insert(bare_img, AbsBox { x: 0, y: 0, width: 5, height: 5 });
    let catalog = demo_catalog();
    let cache = ImageCache::new();
    let (cmds, errs) = emit_laid_out(&tree, &catalog, &cache, &layout);
    assert!(cmds.is_empty());
    assert_eq!(
        errs,
        vec![
            EmitError { node: uncovered, kind: EmitErrorKind::NoGeometry },
            EmitError { node: bare_img, kind: EmitErrorKind::MissingSrc },
        ]
    );
}

#[test]
fn show_text_wraps_a_prerendered_run() {
    let catalog = demo_catalog();
    let tr = render_bridge::text::TextRenderer::new(&catalog, &vec![String::from("Arial")], 10)
        .unwrap();
    let run = tr.render_text(&render_bridge::strutil::chars_of("AA"));
    let cmd = tr.show_text(&run, 3, 4, Rgba { r: 1, g: 2, b: 3, a: 4 });
    match cmd {
        PaintCommand::Text { run: shown, x, y, color } => {
            assert_eq!((x, y), (3, 4));
            assert_eq!(color, Rgba { r: 1, g: 2, b: 3, a: 4 });
            assert_eq!(shown.glyphs, run.glyphs);
            assert_eq!(shown.font_size, 10);
            assert_eq!(shown.family, "Arial");
        }
        other => panic!("expected a text command, got {:?}", other),
    }
}
