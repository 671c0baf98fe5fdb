use render_bridge::image::ImageCache;
use render_bridge::paint::emit_absolute;
use render_bridge::style::{CssValue, Property, UsedValue};
use render_bridge::text::{FontCatalog, FontFace, GlyphEntry, TextRenderer};
use render_bridge::tree::{NodeData, RenderTree};

fn prop(name: &str, value: &str) -> Property {
    Property::new(
        String::from(name),
        CssValue::CompositeString(String::from(value)),
    )
}

fn element(tag: &str) -> NodeData {
    NodeData::Element { tag: String::from(tag), attributes: Vec::new() }
}

#[test]
fn get_property_returns_the_first_match() {
    let mut tree = RenderTree::new(element("html"), Vec::new());
    let n = tree.add_node(0, element("div"), vec![prop("width", "1px"), prop("width", "2px")]);
    let p = tree.get_property(n, "width").unwrap();
    match p.effective() {
        UsedValue::Px(v) => assert_eq!(v, 1),
        _ => panic!("expected a length"),
    }
    assert!(tree.get_property(n, "height").is_none());
    assert!(tree.get_property(99, "width").is_none());
}

#[test]
fn get_attribute_reads_elements_only() {
    let mut tree = RenderTree::new(element("html"), Vec::new());
    let img = tree.add_node(
        0,
        NodeData::Element {
            tag: String::from("img"),
            attributes: vec![
                (String::from("alt"), String::from("a logo")),
                (String::from("src"), String::from("x.png")),
            ],
        },
        Vec::new(),
    );
    let txt = tree.add_node(0, NodeData::Text(String::from("hi")), Vec::new());
    assert_eq!(tree.get_attribute(img, "src").unwrap(), "x.png");
    assert!(tree.get_attribute(img, "href").is_none());
    assert!(tree.get_attribute(txt, "src").is_none());
}

#[test]
fn calculate_styles_fills_every_slot_once() {
    let mut tree = RenderTree::new(element("html"), Vec::new());
    let n = tree.add_node(
        0,
        element("div"),
        vec![prop("width", "10px"), prop("background-color", "red")],
    );
    tree.calculate_styles();
    for p in &tree.nodes[n].properties {
        assert!(p.used.is_some());
    }
    // a second pass keeps the values
    let before: Vec<Option<i64>> = tree.nodes[n]
        .properties
        .iter()
        .map(|p| match p.effective() {
            UsedValue::Px(v) => Some(v),
            _ => None,
        })
        .collect();
    tree.calculate_styles();
    let after: Vec<Option<i64>> = tree.nodes[n]
        .properties
        .iter()
        .map(|p| match p.effective() {
            UsedValue::Px(v) => Some(v),
            _ => None,
        })
        .collect();
    assert_eq!(before, after);
}

#[test]
fn text_style_comes_from_the_parent_node() {
    // the text node carries its own (ignored) properties; the parent's win
    let mut c = FontCatalog::new();
    c.add_face(FontFace::new(
        String::from("Serif"),
        1000,
        1000,
        0,
        0,
        100,
        vec![GlyphEntry { ch: 'A', glyph_id: 7, advance: 100 }],
    ));
    let mut tree = RenderTree::new(element("html"), Vec::new());
    let parent = tree.add_node(
        0,
        element("div"),
        vec![prop("font-family", "Serif"), prop("font-size", "20px")],
    );
    let _text = tree.add_node(
        parent,
        NodeData::Text(String::from("A")),
        vec![prop("font-family", "NoSuchFamily"), prop("font-size", "7px")],
    );
    let cache = ImageCache::new();
    let (cmds, errs) = emit_absolute(&tree, &c, &cache, 100, 100);
    assert!(errs.is_empty());
    assert_eq!(cmds.len(), 1);
    match &cmds[0] {
        render_bridge::paint::PaintCommand::Text { run, .. } => {
            assert_eq!(run.family, "Serif");
            assert_eq!(run.font_size, 20);
        }
        other => panic!("expected the text run, got {:?}", other),
    }
}

#[test]
fn family_list_is_split_on_commas() {
    let mut c = FontCatalog::new();
    c.add_face(FontFace::new(
        String::from("Mono"),
        1000,
        1000,
        0,
        0,
        100,
        Vec::new(),
    ));
    // the list is trimmed as a whole and split on commas; the second entry
    // matches the catalog
    let tr = TextRenderer::new(
        &c,
        &vec![String::from("NoSuchFamily"), String::from("Mono")],
        12,
    );
    assert!(tr.is_ok());
}

#[test]
fn typed_and_string_values_resolve_alike() {
    // the same box once with typed values, once with string-encoded ones
    let mut tree = RenderTree::new(element("html"), Vec::new());
    let typed = tree.add_node(
        0,
        element("div"),
        vec![
            Property::new(
                String::from("position"),
                CssValue::Keyword(String::from("absolute")),
            ),
            Property::new(String::from("top"), CssValue::Length(5, render_bridge::style::Unit::Px)),
            Property::new(String::from("left"), CssValue::Length(6, render_bridge::style::Unit::Px)),
            Property::new(String::from("width"), CssValue::Length(7, render_bridge::style::Unit::Px)),
            Property::new(String::from("height"), CssValue::Length(8, render_bridge::style::Unit::Px)),
            Property::new(
                String::from("background-color"),
                CssValue::Color(render_bridge::style::Rgba { r: 1, g: 2, b: 3, a: 4 }),
            ),
        ],
    );
    let stringly = tree.add_node(
        0,
        element("div"),
        vec![
            prop("position", "absolute"),
            prop("top", "5px"),
            prop("left", "6px"),
            prop("width", "7px"),
            prop("height", "8px"),
            prop("background-color", "#01020304"),
        ],
    );
    assert!(typed != stringly);
    let catalog = FontCatalog::new();
    let cache = ImageCache::new();
    let (cmds, _) = emit_absolute(&tree, &catalog, &cache, 100, 100);
    assert_eq!(cmds.len(), 2);
    assert_eq!(cmds[0], cmds[1]);
}
