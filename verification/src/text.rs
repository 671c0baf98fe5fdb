//! The text shaper: given a font face and a size, it turns a string into a
//! positioned glyph run with a simple left-to-right pen model, and computes
//! line metrics.
//!
//! A font face is described by plain values in the font's design space
//! (units per em, vertical metrics, and a character map with horizontal
//! advances); the loader that extracts them from a font file sits outside the
//! library. Pixel quantities are design units scaled by `size / upem`,
//! truncated toward zero.

use vstd::prelude::*;

use vstd::arithmetic::div_mod::lemma_div_is_ordered_by_denominator;
use vstd::arithmetic::div_mod::lemma_div_pos_is_pos;

verus! {

/// Longest text run the shaper accepts; keeps pen coordinates inside `i64`.
pub const MAX_TEXT_LEN: usize = 1_000_000;

/// Bound on every design-space metric of a well-formed font face.
pub const FONT_UNIT_MAX: i64 = 1_000_000;

/// Largest accepted font size, in pixels.
pub const FONT_SIZE_MAX: i64 = 1_000_000;

/// Bound on any scaled advance or line height:
/// `FONT_UNIT_MAX * FONT_SIZE_MAX`.
pub const GLYPH_PX_MAX: i64 = 1_000_000_000_000;

/// One character-map entry: a character, its glyph id, and the glyph's
/// horizontal advance in design units.
#[derive(Clone, Copy, PartialEq, Eq, Structural, Debug)]
pub struct GlyphEntry {
    pub ch: char,
    pub glyph_id: u32,
    pub advance: i64,
}

/// A loaded font face, keyed by family name, with the metrics the pen model
/// needs. All metrics are in the font's design space.
#[derive(Debug)]
pub struct FontFace {
    pub family: String,
    /// Design units per em; the scaling denominator.
    pub upem: i64,
    pub ascent: i64,
    /// Typographic descent, which real fonts report as a non-positive value.
    pub descent: i64,
    pub leading: i64,
    /// Advance of the notdef glyph (id 0), used for unmapped characters.
    pub notdef_advance: i64,
    pub charmap: Vec<GlyphEntry>,
}

impl FontFace {
    pub open spec fn wf(&self) -> bool {
        &&& 1 <= self.upem <= FONT_UNIT_MAX
        &&& 0 <= self.ascent <= FONT_UNIT_MAX
        &&& -FONT_UNIT_MAX <= self.descent <= 0
        &&& 0 <= self.leading <= FONT_UNIT_MAX
        &&& 0 <= self.notdef_advance <= FONT_UNIT_MAX
        &&& forall|i: int|
            0 <= i < self.charmap@.len() ==> 0 <= #[trigger] self.charmap@[i].advance
                <= FONT_UNIT_MAX
    }

    /// Builds a face, clamping every metric into its well-formed range, so
    /// that a face from any source satisfies `wf`.
    pub fn new(
        family: String,
        upem: i64,
        ascent: i64,
        descent: i64,
        leading: i64,
        notdef_advance: i64,
        charmap: Vec<GlyphEntry>,
    ) -> (f: FontFace)
        ensures
            f.wf(),
            f.family == family,
            f.upem == clamp_range(upem, 1, FONT_UNIT_MAX),
            f.ascent == clamp_range(ascent, 0, FONT_UNIT_MAX),
            f.descent == clamp_range(descent, (-FONT_UNIT_MAX) as i64, 0),
            f.leading == clamp_range(leading, 0, FONT_UNIT_MAX),
            f.notdef_advance == clamp_range(notdef_advance, 0, FONT_UNIT_MAX),
            f.charmap@.len() == charmap@.len(),
            forall|i: int|
                0 <= i < charmap@.len() ==> #[trigger] f.charmap@[i] == (GlyphEntry {
                    advance: clamp_range(charmap@[i].advance, 0, FONT_UNIT_MAX),
                    ..charmap@[i]
                }),
    {
        let mut cm: Vec<GlyphEntry> = Vec::new();
        let mut i: usize = 0;
        while i < charmap.len()
            invariant
                i <= charmap@.len(),
                cm@.len() == i,
                forall|j: int|
                    0 <= j < i ==> #[trigger] cm@[j] == (GlyphEntry {
                        advance: clamp_range(charmap@[j].advance, 0, FONT_UNIT_MAX),
                        ..charmap@[j]
                    }),
            decreases charmap@.len() - i,
        {
            let e = &charmap[i];
            cm.push(GlyphEntry {
                ch: e.ch,
                glyph_id: e.glyph_id,
                advance: clamp_range_exec(e.advance, 0, FONT_UNIT_MAX),
            });
            i += 1;
        }
        FontFace {
            family,
            upem: clamp_range_exec(upem, 1, FONT_UNIT_MAX),
            ascent: clamp_range_exec(ascent, 0, FONT_UNIT_MAX),
            descent: clamp_range_exec(descent, -FONT_UNIT_MAX, 0),
            leading: clamp_range_exec(leading, 0, FONT_UNIT_MAX),
            notdef_advance: clamp_range_exec(notdef_advance, 0, FONT_UNIT_MAX),
            charmap: cm,
        }
    }
}

pub open spec fn clamp_range(n: i64, lo: i64, hi: i64) -> i64 {
    if n < lo {
        lo
    } else if n > hi {
        hi
    } else {
        n
    }
}

fn clamp_range_exec(n: i64, lo: i64, hi: i64) -> (r: i64)
    requires
        lo <= hi,
    ensures
        r == clamp_range(n, lo, hi),
{
    if n < lo {
        lo
    } else if n > hi {
        hi
    } else {
        n
    }
}

/// The first character-map entry for `c`, scanning in map order.
pub open spec fn spec_lookup_char(entries: Seq<GlyphEntry>, c: char) -> Option<GlyphEntry>
    decreases entries.len(),
{
    if entries.len() == 0 {
        None
    } else if entries[0].ch == c {
        Some(entries[0])
    } else {
        spec_lookup_char(entries.drop_first(), c)
    }
}

/// The glyph id a character maps to: its entry's id, or the notdef glyph 0.
pub open spec fn spec_glyph_id(face: FontFace, c: char) -> u32 {
    match spec_lookup_char(face.charmap@, c) {
        Some(e) => e.glyph_id,
        None => 0,
    }
}

/// The design-space advance of the glyph a character maps to.
pub open spec fn spec_advance_units(face: FontFace, c: char) -> i64 {
    match spec_lookup_char(face.charmap@, c) {
        Some(e) => e.advance,
        None => face.notdef_advance,
    }
}

/// A character's horizontal advance in pixels at the given size.
pub open spec fn spec_advance_px(face: FontFace, c: char, size: i64) -> int {
    spec_advance_units(face, c) * size / face.upem as int
}

/// The line height in pixels at the given size:
/// `(ascent - descent + leading) * size / upem`.
pub open spec fn spec_line_height(face: FontFace, size: i64) -> int {
    (face.ascent - face.descent + face.leading) * size / face.upem as int
}

pub proof fn lemma_advance_units_bound(face: FontFace, c: char)
    requires
        face.wf(),
    ensures
        0 <= spec_advance_units(face, c) <= FONT_UNIT_MAX,
{
    lemma_lookup_char_in_map(face.charmap@, c);
}

proof fn lemma_lookup_char_in_map(entries: Seq<GlyphEntry>, c: char)
    ensures
        spec_lookup_char(entries, c) matches Some(e) ==> exists|i: int|
            0 <= i < entries.len() && entries[i] == e,
    decreases entries.len(),
{
    if entries.len() > 0 && entries[0].ch != c {
        lemma_lookup_char_in_map(entries.drop_first(), c);
        if spec_lookup_char(entries, c) is Some {
            let e = spec_lookup_char(entries, c)->Some_0;
            let i = choose|i: int|
                0 <= i < entries.drop_first().len() && entries.drop_first()[i] == e;
            assert(entries[i + 1] == e);
        }
    }
}

pub proof fn lemma_advance_px_bound(face: FontFace, c: char, size: i64)
    requires
        face.wf(),
        0 <= size <= FONT_SIZE_MAX,
    ensures
        0 <= spec_advance_px(face, c, size) <= GLYPH_PX_MAX,
{
    lemma_advance_units_bound(face, c);
    let a = spec_advance_units(face, c) as int;
    let p = a * (size as int);
    assert(0 <= a * (size as int) && a * (size as int) <= 1_000_000_000_000int)
        by (nonlinear_arith)
        requires
            0 <= a <= 1_000_000int,
            0 <= size as int <= 1_000_000int,
    ;
    lemma_div_pos_is_pos(p, face.upem as int);
    lemma_div_is_ordered_by_denominator(p, 1, face.upem as int);
}

pub proof fn lemma_line_height_bound(face: FontFace, size: i64)
    requires
        face.wf(),
        0 <= size <= FONT_SIZE_MAX,
    ensures
        0 <= spec_line_height(face, size) <= 3 * GLYPH_PX_MAX,
{
    let m = (face.ascent - face.descent + face.leading) as int;
    let p = m * (size as int);
    assert(0 <= m * (size as int) && m * (size as int) <= 3_000_000_000_000int)
        by (nonlinear_arith)
        requires
            0 <= m <= 3_000_000int,
            0 <= size as int <= 1_000_000int,
    ;
    lemma_div_pos_is_pos(p, face.upem as int);
    lemma_div_is_ordered_by_denominator(p, 1, face.upem as int);
}

fn lookup_entry(face: &FontFace, c: char) -> (r: (u32, i64))
    ensures
        r.0 == spec_glyph_id(*face, c),
        r.1 == spec_advance_units(*face, c),
{
    let n = face.charmap.len();
    proof {
        assert(face.charmap@.skip(0) =~= face.charmap@);
    }
    let mut i: usize = 0;
    while i < n
        invariant
            i <= n,
            n == face.charmap@.len(),
            spec_lookup_char(face.charmap@, c) == spec_lookup_char(
                face.charmap@.skip(i as int),
                c,
            ),
        decreases n - i,
    {
        let e = &face.charmap[i];
        proof {
            assert(face.charmap@.skip(i as int)[0] == face.charmap@[i as int]);
            assert(face.charmap@.skip(i as int).drop_first() =~= face.charmap@.skip(i + 1));
        }
        if e.ch == c {
            return (e.glyph_id, e.advance);
        }
        i += 1;
    }
    proof {
        assert(face.charmap@.skip(n as int) =~= Seq::<GlyphEntry>::empty());
    }
    (0, face.notdef_advance)
}

/// A character's advance in pixels at the given size.
pub fn advance_px(face: &FontFace, c: char, size: i64) -> (r: i64)
    requires
        face.wf(),
        0 <= size <= FONT_SIZE_MAX,
    ensures
        r as int == spec_advance_px(*face, c, size),
        0 <= r <= GLYPH_PX_MAX,
{
    let (_, units) = lookup_entry(face, c);
    proof {
        lemma_advance_units_bound(*face, c);
        lemma_advance_px_bound(*face, c, size);
        assert(0 <= (units as int) * (size as int) && (units as int) * (size as int)
            <= 1_000_000_000_000int) by (nonlinear_arith)
            requires
                0 <= units as int <= 1_000_000int,
                0 <= size as int <= 1_000_000int,
        ;
    }
    (units * size) / face.upem
}

/// The line height in pixels at the given size.
pub fn line_height(face: &FontFace, size: i64) -> (r: i64)
    requires
        face.wf(),
        0 <= size <= FONT_SIZE_MAX,
    ensures
        r as int == spec_line_height(*face, size),
        0 <= r <= 3 * GLYPH_PX_MAX,
{
    proof {
        lemma_line_height_bound(*face, size);
        let m = (face.ascent - face.descent + face.leading) as int;
        assert(0 <= m * (size as int) && m * (size as int) <= 3_000_000_000_000int)
            by (nonlinear_arith)
            requires
                0 <= m <= 3_000_000int,
                0 <= size as int <= 1_000_000int,
        ;
    }
    ((face.ascent - face.descent + face.leading) * size) / face.upem
}

/// One positioned glyph: a glyph id and the pen position it was placed at.
#[derive(Clone, Copy, PartialEq, Eq, Structural, Debug)]
pub struct Glyph {
    pub glyph_id: u32,
    pub x: i64,
    pub y: i64,
}

/// An ordered run of positioned glyphs in one font face and size.
#[derive(PartialEq, Debug)]
pub struct GlyphRun {
    pub family: String,
    pub font_size: i64,
    pub glyphs: Vec<Glyph>,
}

/// The pen model. The pen starts at the given position; every character that
/// is not a newline places a glyph at the current pen position and advances
/// the pen by its horizontal advance. A newline never places a glyph: in
/// multi-line mode it resets the pen to x = 0 and moves it down by one line
/// height, in single-line mode it is skipped entirely.
pub open spec fn spec_shape(
    face: FontFace,
    size: i64,
    s: Seq<char>,
    multiline: bool,
    pen_x: int,
    pen_y: int,
) -> Seq<Glyph>
    decreases s.len(),
{
    if s.len() == 0 {
        Seq::empty()
    } else {
        let c = s[0];
        if c == '\n' {
            if multiline {
                spec_shape(face, size, s.drop_first(), multiline, 0, pen_y + spec_line_height(face, size))
            } else {
                spec_shape(face, size, s.drop_first(), multiline, pen_x, pen_y)
            }
        } else {
            seq![
                Glyph { glyph_id: spec_glyph_id(face, c), x: pen_x as i64, y: pen_y as i64 },
            ] + spec_shape(
                face,
                size,
                s.drop_first(),
                multiline,
                pen_x + spec_advance_px(face, c, size),
                pen_y,
            )
        }
    }
}


/// Number of characters that receive a glyph: every character that is not a
/// newline.
pub open spec fn count_glyph_chars(s: Seq<char>) -> int
    decreases s.len(),
{
    if s.len() == 0 {
        0
    } else if s[0] == '\n' {
        count_glyph_chars(s.drop_first())
    } else {
        1 + count_glyph_chars(s.drop_first())
    }
}

/// Newlines are never assigned a glyph, in either mode: the run holds exactly
/// one glyph per character that is not a newline.
pub proof fn lemma_newlines_have_no_glyph(
    face: FontFace,
    size: i64,
    s: Seq<char>,
    multiline: bool,
    pen_x: int,
    pen_y: int,
)
    ensures
        spec_shape(face, size, s, multiline, pen_x, pen_y).len() == count_glyph_chars(s),
    decreases s.len(),
{
    if s.len() > 0 {
        if s[0] == '\n' {
            if multiline {
                lemma_newlines_have_no_glyph(
                    face,
                    size,
                    s.drop_first(),
                    multiline,
                    0,
                    pen_y + spec_line_height(face, size),
                );
            } else {
                lemma_newlines_have_no_glyph(face, size, s.drop_first(), multiline, pen_x, pen_y);
            }
        } else {
            lemma_newlines_have_no_glyph(
                face,
                size,
                s.drop_first(),
                multiline,
                pen_x + spec_advance_px(face, s[0], size),
                pen_y,
            );
        }
    }
}

/// In single-line mode a newline is skipped without a break: every glyph of
/// the run sits on the starting baseline.
pub proof fn lemma_single_line_keeps_the_baseline(
    face: FontFace,
    size: i64,
    s: Seq<char>,
    pen_x: int,
    pen_y: int,
)
    ensures
        forall|i: int|
            0 <= i < spec_shape(face, size, s, false, pen_x, pen_y).len() ==> (
            #[trigger] spec_shape(face, size, s, false, pen_x, pen_y)[i]).y == pen_y as i64,
    decreases s.len(),
{
    let r = spec_shape(face, size, s, false, pen_x, pen_y);
    if s.len() > 0 {
        if s[0] == '\n' {
            let sub = spec_shape(face, size, s.drop_first(), false, pen_x, pen_y);
            lemma_single_line_keeps_the_baseline(face, size, s.drop_first(), pen_x, pen_y);
            assert forall|i: int| 0 <= i < r.len() implies (#[trigger] r[i]).y
                == pen_y as i64 by {
                assert(r[i] == sub[i]);
            }
        } else {
            let sub = spec_shape(
                face,
                size,
                s.drop_first(),
                false,
                pen_x + spec_advance_px(face, s[0], size),
                pen_y,
            );
            lemma_single_line_keeps_the_baseline(
                face,
                size,
                s.drop_first(),
                pen_x + spec_advance_px(face, s[0], size),
                pen_y,
            );
            assert forall|i: int| 0 <= i < r.len() implies (#[trigger] r[i]).y
                == pen_y as i64 by {
                if i >= 1 {
                    assert(r[i] == sub[i - 1]);
                }
            }
        }
    }
}

/// Shapes a text run: glyph ids and pen positions for every character, with
/// the pen starting at the origin.
#[verifier::loop_isolation(false)]
pub fn shape(face: &FontFace, size: i64, text: &Vec<char>, multiline: bool) -> (r: GlyphRun)
    requires
        face.wf(),
        0 <= size <= FONT_SIZE_MAX,
        text@.len() <= MAX_TEXT_LEN,
    ensures
        r.family == face.family,
        r.font_size == size,
        r.glyphs@ == spec_shape(*face, size, text@, multiline, 0, 0),
{
    let n = text.len();
    let mut glyphs: Vec<Glyph> = Vec::new();
    let mut pen_x: i64 = 0;
    let mut pen_y: i64 = 0;
    proof {
        assert(text@.skip(0) =~= text@);
        assert(Seq::<Glyph>::empty() + spec_shape(*face, size, text@, multiline, 0, 0)
            =~= spec_shape(*face, size, text@, multiline, 0, 0));
    }
    let mut i: usize = 0;
    while i < n
        invariant
            i <= n,
            0 <= pen_x <= i * GLYPH_PX_MAX,
            0 <= pen_y <= 3 * i * GLYPH_PX_MAX,
            spec_shape(*face, size, text@, multiline, 0, 0) == glyphs@ + spec_shape(
                *face,
                size,
                text@.skip(i as int),
                multiline,
                pen_x as int,
                pen_y as int,
            ),
        decreases n - i,
    {
        let c = text[i];
        proof {
            assert(text@.skip(i as int)[0] == text@[i as int]);
            assert(text@.skip(i as int).drop_first() =~= text@.skip(i + 1));
        }
        if c == '\n' {
            if multiline {
                let lh = line_height(face, size);
                pen_y = pen_y + lh;
                pen_x = 0;
            }
        } else {
            let (gid, _) = lookup_entry(face, c);
            glyphs.push(Glyph { glyph_id: gid, x: pen_x, y: pen_y });
            let adv = advance_px(face, c, size);
            pen_x = pen_x + adv;
        }
        i += 1;
        proof {
            assert(glyphs@ + spec_shape(
                *face,
                size,
                text@.skip(i as int),
                multiline,
                pen_x as int,
                pen_y as int,
            ) =~= spec_shape(*face, size, text@, multiline, 0, 0));
        }
    }
    proof {
        assert(text@.skip(n as int) =~= Seq::<char>::empty());
        assert(glyphs@ =~= spec_shape(*face, size, text@, multiline, 0, 0));
    }
    GlyphRun { family: face.family.clone(), font_size: size, glyphs }
}


// ---------------------------------------------------------------------------
// Font catalog and selection
// ---------------------------------------------------------------------------

/// The font-matching service, modelled as data: the loaded faces, keyed by
/// family name, in registration order. The loader that fills it sits outside
/// the library.
#[derive(Debug)]
pub struct FontCatalog {
    pub faces: Vec<FontFace>,
}

/// Index of the first face whose family name is `family`.
pub open spec fn spec_first_face(faces: Seq<FontFace>, family: Seq<char>) -> Option<int>
    decreases faces.len(),
{
    if faces.len() == 0 {
        None
    } else if faces[0].family@ == family {
        Some(0int)
    } else {
        match spec_first_face(faces.drop_first(), family) {
            Some(i) => Some(i + 1),
            None => None,
        }
    }
}

/// Font selection: each family name in the caller-supplied list is tried in
/// order against the catalog; the first family with a match wins, and the
/// match is the first face carrying that name.
pub open spec fn spec_select_font(faces: Seq<FontFace>, families: Seq<Seq<char>>) -> Option<int>
    decreases families.len(),
{
    if families.len() == 0 {
        None
    } else {
        match spec_first_face(faces, families[0]) {
            Some(i) => Some(i),
            None => spec_select_font(faces, families.drop_first()),
        }
    }
}

pub proof fn lemma_first_face_bounds(faces: Seq<FontFace>, family: Seq<char>)
    ensures
        spec_first_face(faces, family) matches Some(i) ==> 0 <= i < faces.len()
            && faces[i].family@ == family,
    decreases faces.len(),
{
    if faces.len() > 0 && faces[0].family@ != family {
        lemma_first_face_bounds(faces.drop_first(), family);
        if spec_first_face(faces, family) is Some {
            let i = spec_first_face(faces.drop_first(), family)->Some_0;
            assert(faces[i + 1] == faces.drop_first()[i]);
        }
    }
}

pub proof fn lemma_select_font_bounds(faces: Seq<FontFace>, families: Seq<Seq<char>>)
    ensures
        spec_select_font(faces, families) matches Some(i) ==> 0 <= i < faces.len(),
    decreases families.len(),
{
    if families.len() > 0 {
        lemma_first_face_bounds(faces, families[0]);
        lemma_select_font_bounds(faces, families.drop_first());
    }
}

proof fn lemma_first_face_is(faces: Seq<FontFace>, family: Seq<char>, k: int)
    requires
        0 <= k <= faces.len(),
        forall|j: int| 0 <= j < k ==> #[trigger] faces[j].family@ != family,
        k < faces.len() ==> faces[k].family@ == family,
    ensures
        k == faces.len() ==> spec_first_face(faces, family) is None,
        k < faces.len() ==> spec_first_face(faces, family) == Some(k),
    decreases faces.len(),
{
    if k == 0 {
    } else {
        assert(faces[0].family@ != family);
        assert forall|j: int| 0 <= j < k - 1 implies #[trigger] faces.drop_first()[j].family@
            != family by {
            assert(faces.drop_first()[j] == faces[j + 1]);
        }
        lemma_first_face_is(faces.drop_first(), family, k - 1);
    }
}

impl FontCatalog {
    /// Every face in the catalog is well formed.
    pub open spec fn wf(&self) -> bool {
        forall|i: int| 0 <= i < self.faces@.len() ==> (#[trigger] self.faces@[i]).wf()
    }

    pub fn new() -> (c: FontCatalog)
        ensures
            c.wf(),
            c.faces@.len() == 0,
    {
        FontCatalog { faces: Vec::new() }
    }

    /// Registers a face. Later faces never shadow earlier ones of the same
    /// family: the first registration wins at lookup time.
    pub fn add_face(&mut self, face: FontFace)
        requires
            old(self).wf(),
            face.wf(),
        ensures
            final(self).wf(),
            final(self).faces@ == old(self).faces@.push(face),
    {
        self.faces.push(face);
    }

    /// The first face whose family name matches.
    pub fn first_face(&self, family: &String) -> (r: Option<usize>)
        ensures
            match r {
                Some(i) => spec_first_face(self.faces@, family@) == Some(i as int) && i
                    < self.faces@.len(),
                None => spec_first_face(self.faces@, family@) is None,
            },
    {
        let n = self.faces.len();
        let mut i: usize = 0;
        while i < n
            invariant
                i <= n,
                n == self.faces@.len(),
                forall|j: int| 0 <= j < i ==> #[trigger] self.faces@[j].family@ != family@,
            decreases n - i,
        {
            if self.faces[i].family.eq(family) {
                proof {
                    lemma_first_face_is(self.faces@, family@, i as int);
                }
                return Some(i);
            }
            i += 1;
        }
        proof {
            lemma_first_face_is(self.faces@, family@, n as int);
        }
        None
    }

    /// Tries each family name in order; the first match wins.
    pub fn select_font(&self, families: &Vec<String>) -> (r: Option<usize>)
        ensures
            match r {
                Some(i) => spec_select_font(self.faces@, families.deep_view()) == Some(
                    i as int,
                ) && i < self.faces@.len(),
                None => spec_select_font(self.faces@, families.deep_view()) is None,
            },
    {
        let ghost fams = families.deep_view();
        let n = families.len();
        proof {
            assert(fams.skip(0) =~= fams);
        }
        let mut j: usize = 0;
        while j < n
            invariant
                j <= n,
                n == fams.len(),
                fams == families.deep_view(),
                spec_select_font(self.faces@, fams) == spec_select_font(
                    self.faces@,
                    fams.skip(j as int),
                ),
            decreases n - j,
        {
            proof {
                assert(fams.skip(j as int)[0] == fams[j as int]);
                assert(fams[j as int] == families@[j as int]@);
                assert(fams.skip(j as int).drop_first() =~= fams.skip(j + 1));
            }
            if let Some(i) = self.first_face(&families[j]) {
                return Some(i);
            }
            j += 1;
        }
        proof {
            assert(fams.skip(n as int) =~= Seq::<Seq<char>>::empty());
        }
        None
    }
}

// ---------------------------------------------------------------------------
// The text renderer
// ---------------------------------------------------------------------------

/// Failure to find any usable font. Missing fonts are node-fatal: an
/// unreadable glyph run would be worse than a visible gap, so this error is
/// surfaced to the caller instead of being silently skipped.
#[derive(Clone, Copy, PartialEq, Eq, Structural, Debug)]
pub enum FontError {
    NoFontFound,
}

/// A selected face with a fixed size: the per-text-node shaping context.
#[derive(Debug)]
pub struct TextRenderer<'a> {
    pub face: &'a FontFace,
    pub font_size: i64,
    pub line_height: i64,
}

impl<'a> TextRenderer<'a> {
    pub open spec fn wf(&self) -> bool {
        &&& self.face.wf()
        &&& 0 <= self.font_size <= FONT_SIZE_MAX
        &&& self.line_height as int == spec_line_height(*self.face, self.font_size)
    }

    /// Selects the first matching family from the catalog. No usable font is
    /// the one node-fatal error of the renderer.
    pub fn new(catalog: &'a FontCatalog, font_family: &Vec<String>, font_size: i64) -> (r:
        Result<TextRenderer<'a>, FontError>)
        requires
            catalog.wf(),
            0 <= font_size <= FONT_SIZE_MAX,
        ensures
            match r {
                Ok(tr) => {
                    &&& tr.wf()
                    &&& tr.font_size == font_size
                    &&& spec_select_font(catalog.faces@, font_family.deep_view()) matches Some(
                        i,
                    ) && *tr.face == catalog.faces@[i]
                },
                Err(e) => spec_select_font(catalog.faces@, font_family.deep_view()) is None
                    && e == FontError::NoFontFound,
            },
    {
        match catalog.select_font(font_family) {
            Some(i) => {
                let face = &catalog.faces[i];
                let lh = line_height(face, font_size);
                Ok(TextRenderer { face, font_size, line_height: lh })
            },
            None => Err(FontError::NoFontFound),
        }
    }

    /// A renderer over a caller-supplied face.
    pub fn new_with_font(face: &'a FontFace, font_size: i64) -> (r: TextRenderer<'a>)
        requires
            face.wf(),
            0 <= font_size <= FONT_SIZE_MAX,
        ensures
            r.wf(),
            r.face == face,
            r.font_size == font_size,
    {
        let lh = line_height(face, font_size);
        TextRenderer { face, font_size, line_height: lh }
    }

    /// Shapes a single-line run: newlines produce no glyph and no break.
    pub fn render_text(&self, text: &Vec<char>) -> (r: GlyphRun)
        requires
            self.wf(),
            text@.len() <= MAX_TEXT_LEN,
        ensures
            r.family == self.face.family,
            r.font_size == self.font_size,
            r.glyphs@ == spec_shape(*self.face, self.font_size, text@, false, 0, 0),
    {
        shape(self.face, self.font_size, text, false)
    }

    /// Shapes a single-line run with another face, at this renderer's size.
    pub fn render_custom_font_text(&self, text: &Vec<char>, face: &FontFace) -> (r: GlyphRun)
        requires
            self.wf(),
            face.wf(),
            text@.len() <= MAX_TEXT_LEN,
        ensures
            r.family == face.family,
            r.font_size == self.font_size,
            r.glyphs@ == spec_shape(*face, self.font_size, text@, false, 0, 0),
    {
        shape(face, self.font_size, text, false)
    }

    /// Shapes a multi-line run with another face: a newline resets the pen to
    /// x = 0 and advances it down by the face's line height.
    pub fn render_multiline_custom_font_text(&self, text: &Vec<char>, face: &FontFace) -> (r:
        GlyphRun)
        requires
            self.wf(),
            face.wf(),
            text@.len() <= MAX_TEXT_LEN,
        ensures
            r.family == face.family,
            r.font_size == self.font_size,
            r.glyphs@ == spec_shape(*face, self.font_size, text@, true, 0, 0),
    {
        shape(face, self.font_size, text, true)
    }
}

} // verus!
