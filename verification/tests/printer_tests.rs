use render_bridge::geom::AbsBox;
use render_bridge::paint::LayoutMap;
use render_bridge::printer::print_tree;
use render_bridge::tree::{NodeData, RenderTree};

#[test]
fn listing_shows_heading_bars_geometry_and_payloads() {
    let mut tree = RenderTree::new(
        NodeData::Element { tag: String::from("html"), attributes: Vec::new() },
        Vec::new(),
    );
    let img = tree.add_node(
        0,
        NodeData::Element {
            tag: String::from("img"),
            attributes: vec![(String::from("src"), String::from("x.png"))],
        },
        Vec::new(),
    );
    let _txt = tree.add_node(0, NodeData::Text(String::from("  hi\nthere ")), Vec::new());
    let mut layout = LayoutMap::new();
    layout.insert(img, AbsBox { x: 7, y: -3, width: 120, height: 4 });
    let lines = print_tree(&tree, &layout);
    assert_eq!(lines.len(), 4);
    assert_eq!(lines[0], "TREE");
    assert_eq!(
        lines[1],
        "└── [x: 0    y: 0    width: 0    height: 0   ] (0) |<html>|"
    );
    assert_eq!(
        lines[2],
        "    ├── [x: 7    y: -3   width: 120  height: 4   ] (1) |<img src=\"x.png\">|"
    );
    // the text payload is flattened to one line and trimmed
    assert_eq!(
        lines[3],
        "    └── [x: 0    y: 0    width: 0    height: 0   ] (2) |hi there|"
    );
}
