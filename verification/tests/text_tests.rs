use render_bridge::strutil::chars_of;
use render_bridge::text::{FontCatalog, FontFace, GlyphEntry, TextRenderer};

fn demo_face(family: &str) -> FontFace {
    FontFace::new(
        String::from(family),
        1000,
        800,
        -200,
        0,
        500,
        vec![
            GlyphEntry { ch: 'A', glyph_id: 1, advance: 600 },
            GlyphEntry { ch: 'B', glyph_id: 2, advance: 500 },
        ],
    )
}

fn demo_catalog() -> FontCatalog {
    let mut c = FontCatalog::new();
    c.add_face(demo_face("Arial"));
    c.add_face(demo_face("Mono"));
    c
}

#[test]
fn line_height_scales_metrics() {
    let c = demo_catalog();
    let tr = TextRenderer::new(&c, &vec![String::from("Arial")], 10).unwrap();
    // (ascent - descent + leading) * size / upem = (800 + 200 + 0) * 10 / 1000
    assert_eq!(tr.line_height, 10);
}

#[test]
fn selection_takes_the_first_matching_family() {
    let c = demo_catalog();
    let tr = TextRenderer::new(
        &c,
        &vec![String::from("NoSuchFamily"), String::from("Mono")],
        10,
    )
    .unwrap();
    assert_eq!(tr.face.family, "Mono");
}

#[test]
fn selection_fails_without_any_match() {
    let c = demo_catalog();
    assert!(TextRenderer::new(&c, &vec![String::from("NoSuchFamily")], 10).is_err());
}

#[test]
fn single_line_skips_newlines_without_breaking() {
    let c = demo_catalog();
    let tr = TextRenderer::new(&c, &vec![String::from("Arial")], 10).unwrap();
    let run = tr.render_text(&chars_of("A\nB"));
    // the newline gets no glyph; the pen keeps running on one line
    assert_eq!(run.glyphs.len(), 2);
    assert_eq!(run.glyphs[0].glyph_id, 1);
    assert_eq!((run.glyphs[0].x, run.glyphs[0].y), (0, 0));
    assert_eq!(run.glyphs[1].glyph_id, 2);
    // advance of 'A' is 600 * 10 / 1000 = 6
    assert_eq!((run.glyphs[1].x, run.glyphs[1].y), (6, 0));
}

#[test]
fn multiline_breaks_at_newlines() {
    let c = demo_catalog();
    let tr = TextRenderer::new(&c, &vec![String::from("Arial")], 10).unwrap();
    let face = demo_face("Arial");
    let run = tr.render_multiline_custom_font_text(&chars_of("A\nB"), &face);
    // zero glyphs for the newline; 'A' on the first line, 'B' on the second
    assert_eq!(run.glyphs.len(), 2);
    assert_eq!((run.glyphs[0].x, run.glyphs[0].y), (0, 0));
    // the pen resets to x = 0 and moves down by one line height
    assert_eq!((run.glyphs[1].x, run.glyphs[1].y), (0, 10));
}

#[test]
fn unmapped_characters_use_the_notdef_glyph() {
    let c = demo_catalog();
    let tr = TextRenderer::new(&c, &vec![String::from("Arial")], 10).unwrap();
    let run = tr.render_text(&chars_of("Z"));
    assert_eq!(run.glyphs.len(), 1);
    assert_eq!(run.glyphs[0].glyph_id, 0);
}

#[test]
fn advances_accumulate_left_to_right() {
    let c = demo_catalog();
    let tr = TextRenderer::new(&c, &vec![String::from("Arial")], 10).unwrap();
    let run = tr.render_text(&chars_of("ABA"));
    let xs: Vec<i64> = run.glyphs.iter().map(|g| g.x).collect();
    // advances: A = 6, B = 5
    assert_eq!(xs, vec![0, 6, 11]);
}
