//! The debug tree listing: one line per node, prefixed with box-drawing bars
//! and forks, with the node's laid-out geometry, its id, and a short
//! rendering of its payload. The library builds the lines; printing them is
//! the caller's business.

use vstd::prelude::*;

use crate::geom::AbsBox;
use crate::paint::LayoutMap;
use crate::paint::spec_layout_get;
use crate::strutil::chars_of;
use crate::strutil::chars_to_string;
use crate::strutil::spec_trim;
use crate::strutil::trim_chars;
use crate::tree::NodeData;
use crate::tree::RenderTree;

verus! {

pub open spec fn digit_char(d: int) -> char {
    ((d + 48) as u8) as char
}

/// The decimal digits of a non-negative number, most significant first.
pub open spec fn spec_digits(n: int) -> Seq<char>
    decreases n,
{
    if n < 10 {
        seq![digit_char(n)]
    } else {
        spec_digits(n / 10) + seq![digit_char(n % 10)]
    }
}

/// The decimal rendering of a signed number.
pub open spec fn spec_i64_chars(n: i64) -> Seq<char> {
    if n < 0 {
        seq!['-'] + spec_digits(-(n as int))
    } else {
        spec_digits(n as int)
    }
}

fn digits_u(n: u64) -> (r: Vec<char>)
    ensures
        r@ == spec_digits(n as int),
    decreases n,
{
    if n < 10 {
        let mut v: Vec<char> = Vec::new();
        v.push(('0' as u8 + n as u8) as char);
        proof {
            assert(v@ =~= spec_digits(n as int));
        }
        v
    } else {
        let mut v = digits_u(n / 10);
        v.push(('0' as u8 + (n % 10) as u8) as char);
        proof {
            assert(v@ =~= spec_digits(n as int));
        }
        v
    }
}

/// The decimal rendering of a coordinate.
pub fn i64_chars(n: i64) -> (r: Vec<char>)
    requires
        n > i64::MIN,
    ensures
        r@ == spec_i64_chars(n),
{
    if n < 0 {
        let mut v: Vec<char> = Vec::new();
        v.push('-');
        let mut d = digits_u((-n) as u64);
        v.append(&mut d);
        proof {
            assert(v@ =~= spec_i64_chars(n));
        }
        v
    } else {
        digits_u(n as u64)
    }
}

/// Left-justified padding to at least four characters, as the listing's
/// geometry columns use.
pub open spec fn spec_pad4(s: Seq<char>) -> Seq<char> {
    if s.len() == 0 {
        s + seq![' ', ' ', ' ', ' ']
    } else if s.len() == 1 {
        s + seq![' ', ' ', ' ']
    } else if s.len() == 2 {
        s + seq![' ', ' ']
    } else if s.len() == 3 {
        s + seq![' ']
    } else {
        s
    }
}

fn pad4(v: &mut Vec<char>)
    ensures
        final(v)@ == spec_pad4(old(v)@),
{
    while v.len() < 4
        invariant
            spec_pad4(v@) == spec_pad4(old(v)@),
        decreases 4 - v@.len(),
    {
        v.push(' ');
        proof {
            assert(spec_pad4(v@) =~= spec_pad4(old(v)@));
        }
    }
    proof {
        assert(v@ =~= spec_pad4(v@));
    }
}

/// Newlines flattened to spaces, as text payloads are listed on one line.
pub open spec fn spec_flatten_newlines(s: Seq<char>) -> Seq<char> {
    s.map_values(
        |c: char|
            if c == '\n' {
                ' '
            } else {
                c
            },
    )
}

/// The attribute rendering of an element: ` key="value"` for each attribute,
/// in order.
pub open spec fn spec_attrs_render(attrs: Seq<(String, String)>) -> Seq<char>
    decreases attrs.len(),
{
    if attrs.len() == 0 {
        Seq::empty()
    } else {
        seq![' '] + attrs[0].0@ + "=\""@ + attrs[0].1@ + "\""@ + spec_attrs_render(
            attrs.drop_first(),
        )
    }
}

/// The payload rendering: `<tag key="value">` for an element, the flattened
/// and trimmed text for a text node.
pub open spec fn spec_node_render(data: NodeData) -> Seq<char> {
    match data {
        NodeData::Element { tag, attributes } => seq!['<'] + tag@ + spec_attrs_render(attributes@)
            + seq!['>'],
        NodeData::Text(s) => spec_trim(spec_flatten_newlines(s@)),
    }
}

/// Appends the characters of `src`.
fn append_chars(dst: &mut Vec<char>, src: &Vec<char>)
    ensures
        final(dst)@ == old(dst)@ + src@,
{
    let mut i: usize = 0;
    while i < src.len()
        invariant
            i <= src@.len(),
            dst@ == old(dst)@ + src@.subrange(0, i as int),
        decreases src@.len() - i,
    {
        dst.push(src[i]);
        proof {
            assert(dst@ =~= old(dst)@ + src@.subrange(0, i + 1));
        }
        i += 1;
    }
    proof {
        assert(dst@ =~= old(dst)@ + src@);
    }
}

/// Appends the characters of a string slice.
fn append_str(dst: &mut Vec<char>, src: &str)
    ensures
        final(dst)@ == old(dst)@ + src@,
{
    let cv = chars_of(src);
    append_chars(dst, &cv);
}

fn node_render(data: &NodeData) -> (r: Vec<char>)
    ensures
        r@ == spec_node_render(*data),
{
    match data {
        NodeData::Element { tag, attributes } => {
            let mut v: Vec<char> = Vec::new();
            v.push('<');
            append_str(&mut v, tag.as_str());
            let n = attributes.len();
            proof {
                assert(attributes@.skip(0) =~= attributes@);
                assert(v@ =~= seq!['<'] + tag@);
            }
            let mut i: usize = 0;
            while i < n
                invariant
                    i <= n,
                    n == attributes@.len(),
                    v@ + spec_attrs_render(attributes@.skip(i as int)) == seq!['<'] + tag@
                        + spec_attrs_render(attributes@),
                decreases n - i,
            {
                proof {
                    assert(attributes@.skip(i as int)[0] == attributes@[i as int]);
                    assert(attributes@.skip(i as int).drop_first() =~= attributes@.skip(i + 1));
                }
                v.push(' ');
                append_str(&mut v, attributes[i].0.as_str());
                append_str(&mut v, "=\"");
                append_str(&mut v, attributes[i].1.as_str());
                append_str(&mut v, "\"");
                i += 1;
                proof {
                    assert(v@ + spec_attrs_render(attributes@.skip(i as int)) =~= seq!['<'] + tag@
                        + spec_attrs_render(attributes@));
                }
            }
            proof {
                assert(attributes@.skip(n as int) =~= Seq::<(String, String)>::empty());
                assert(spec_attrs_render(attributes@.skip(n as int)) =~= Seq::<char>::empty());
            }
            v.push('>');
            proof {
                assert(v@ =~= spec_node_render(*data));
            }
            v
        },
        NodeData::Text(s) => {
            let cv = chars_of(s.as_str());
            let mut flat: Vec<char> = Vec::new();
            let mut i: usize = 0;
            while i < cv.len()
                invariant
                    i <= cv@.len(),
                    flat@ == spec_flatten_newlines(cv@).subrange(0, i as int),
                decreases cv@.len() - i,
            {
                let c = cv[i];
                if c == '\n' {
                    flat.push(' ');
                } else {
                    flat.push(c);
                }
                proof {
                    assert(flat@ =~= spec_flatten_newlines(cv@).subrange(0, i + 1));
                }
                i += 1;
            }
            proof {
                assert(flat@ =~= spec_flatten_newlines(cv@));
            }
            trim_chars(&flat)
        },
    }
}

/// The geometry listed for a node: what the layout pass recorded, or an
/// all-zero box for a node it did not cover.
pub open spec fn spec_listed_box(layout: LayoutMap, id: int) -> AbsBox {
    match spec_layout_get(layout.entries@, id) {
        Some(b) => b,
        None => AbsBox { x: 0, y: 0, width: 0, height: 0 },
    }
}

/// One listing line: the accumulated bar prefix, the fork, the geometry
/// columns, the node id, and the payload rendering.
pub open spec fn spec_line(
    tree: RenderTree,
    layout: LayoutMap,
    id: int,
    has_sibling: bool,
    prefix: Seq<char>,
) -> Seq<char> {
    let g = spec_listed_box(layout, id);
    let fork = if has_sibling {
        "\u{251c}\u{2500}\u{2500} "@
    } else {
        "\u{2514}\u{2500}\u{2500} "@
    };
    prefix + fork + "[x: "@ + spec_pad4(spec_i64_chars(g.x)) + " y: "@ + spec_pad4(
        spec_i64_chars(g.y),
    ) + " width: "@ + spec_pad4(spec_i64_chars(g.width)) + " height: "@ + spec_pad4(
        spec_i64_chars(g.height),
    ) + "] ("@ + spec_digits(id) + ") |"@ + spec_node_render(tree.nodes@[id].data) + seq!['|']
}

/// The lines of the subtree rooted at `id`: the node's line, then each
/// child's subtree, children below their parent with one more bar column.
pub open spec fn spec_list_from(
    tree: RenderTree,
    layout: LayoutMap,
    id: int,
    has_sibling: bool,
    prefix: Seq<char>,
) -> Seq<Seq<char>>
    decreases tree.nodes@.len() - id, 1int, 0int,
        when tree.wf() && 0 <= id < tree.nodes@.len()
{
    let bar = if has_sibling {
        "\u{2502}   "@
    } else {
        "    "@
    };
    seq![spec_line(tree, layout, id, has_sibling, prefix)] + spec_list_kids(
        tree,
        layout,
        id,
        0,
        prefix + bar,
    )
}

pub open spec fn spec_list_kids(
    tree: RenderTree,
    layout: LayoutMap,
    id: int,
    k: int,
    prefix: Seq<char>,
) -> Seq<Seq<char>>
    decreases tree.nodes@.len() - id, 0int, tree.nodes@[id].children@.len() - k,
        when tree.wf() && 0 <= id < tree.nodes@.len() && 0 <= k
{
    if k >= tree.nodes@[id].children@.len() {
        Seq::empty()
    } else {
        let child = tree.nodes@[id].children@[k] as int;
        spec_list_from(tree, layout, child, k + 1 < tree.nodes@[id].children@.len(), prefix)
            + spec_list_kids(tree, layout, id, k + 1, prefix)
    }
}

/// The whole listing: a `TREE` heading, then the root's subtree.
pub open spec fn spec_print_tree(tree: RenderTree, layout: LayoutMap) -> Seq<Seq<char>> {
    seq!["TREE"@] + spec_list_from(tree, layout, 0, false, Seq::empty())
}

fn line_of(tree: &RenderTree, layout: &LayoutMap, id: usize, has_sibling: bool, prefix: &Vec<char>) -> (r: String)
    requires
        tree.wf(),
        id < tree.nodes@.len(),
        layout.wf(),
    ensures
        r@ == spec_line(*tree, *layout, id as int, has_sibling, prefix@),
{
    let g: AbsBox = match layout.get(id) {
        Some(b) => *b,
        None => AbsBox { x: 0, y: 0, width: 0, height: 0 },
    };
    proof {
        crate::paint::lemma_layout_get_bounds(*layout, id as int);
    }
    let mut v: Vec<char> = Vec::new();
    append_chars(&mut v, prefix);
    if has_sibling {
        append_str(&mut v, "\u{251c}\u{2500}\u{2500} ");
    } else {
        append_str(&mut v, "\u{2514}\u{2500}\u{2500} ");
    }
    append_str(&mut v, "[x: ");
    let mut xs = i64_chars(g.x);
    pad4(&mut xs);
    append_chars(&mut v, &xs);
    append_str(&mut v, " y: ");
    let mut ys = i64_chars(g.y);
    pad4(&mut ys);
    append_chars(&mut v, &ys);
    append_str(&mut v, " width: ");
    let mut ws = i64_chars(g.width);
    pad4(&mut ws);
    append_chars(&mut v, &ws);
    append_str(&mut v, " height: ");
    let mut hs = i64_chars(g.height);
    pad4(&mut hs);
    append_chars(&mut v, &hs);
    append_str(&mut v, "] (");
    let ids = digits_u(id as u64);
    append_chars(&mut v, &ids);
    append_str(&mut v, ") |");
    let nr = node_render(&tree.nodes[id].data);
    append_chars(&mut v, &nr);
    v.push('|');
    proof {
        assert(v@ =~= spec_line(*tree, *layout, id as int, has_sibling, prefix@));
    }
    chars_to_string(&v)
}

#[verifier::loop_isolation(false)]
fn list_from(
    tree: &RenderTree,
    layout: &LayoutMap,
    id: usize,
    has_sibling: bool,
    prefix: &Vec<char>,
    out: &mut Vec<String>,
)
    requires
        tree.wf(),
        layout.wf(),
        id < tree.nodes@.len(),
    ensures
        final(out).deep_view() == old(out).deep_view() + spec_list_from(
            *tree,
            *layout,
            id as int,
            has_sibling,
            prefix@,
        ),
    decreases tree.nodes@.len() - id,
{
    let line = line_of(tree, layout, id, has_sibling, prefix);
    out.push(line);
    let mut child_prefix: Vec<char> = Vec::new();
    append_chars(&mut child_prefix, prefix);
    if has_sibling {
        append_str(&mut child_prefix, "\u{2502}   ");
    } else {
        append_str(&mut child_prefix, "    ");
    }
    let ghost mid = out.deep_view();
    proof {
        assert(mid =~= old(out).deep_view().push(
            spec_line(*tree, *layout, id as int, has_sibling, prefix@),
        ));
    }
    let n = tree.nodes[id].children.len();
    let mut k: usize = 0;
    while k < n
        invariant
            k <= n,
            n == tree.nodes@[id as int].children@.len(),
            child_prefix@ == prefix@ + (if has_sibling {
                "\u{2502}   "@
            } else {
                "    "@
            }),
            out.deep_view() + spec_list_kids(*tree, *layout, id as int, k as int, child_prefix@)
                == mid + spec_list_kids(*tree, *layout, id as int, 0, child_prefix@),
        decreases n - k,
    {
        let child = tree.nodes[id].children[k];
        proof {
            assert(id < tree.nodes@[id as int].children@[k as int] < tree.nodes@.len());
        }
        list_from(tree, layout, child, k + 1 < n, &child_prefix, out);
        k += 1;
        proof {
            assert(out.deep_view() + spec_list_kids(
                *tree,
                *layout,
                id as int,
                k as int,
                child_prefix@,
            ) =~= mid + spec_list_kids(*tree, *layout, id as int, 0, child_prefix@));
        }
    }
    proof {
        assert(out.deep_view() =~= old(out).deep_view() + spec_list_from(
            *tree,
            *layout,
            id as int,
            has_sibling,
            prefix@,
        ));
    }
}

/// Renders the whole tree listing, one string per line: a `TREE` heading,
/// then every node depth-first in document order with its laid-out geometry
/// and payload.
pub fn print_tree(tree: &RenderTree, layout: &LayoutMap) -> (r: Vec<String>)
    requires
        tree.wf(),
        layout.wf(),
    ensures
        r.deep_view() == spec_print_tree(*tree, *layout),
{
    let mut out: Vec<String> = Vec::new();
    let mut heading = String::new();
    crate::strutil::push_char(&mut heading, 'T');
    crate::strutil::push_char(&mut heading, 'R');
    crate::strutil::push_char(&mut heading, 'E');
    crate::strutil::push_char(&mut heading, 'E');
    proof {
        reveal_strlit("TREE");
        assert(heading@ =~= "TREE"@);
    }
    out.push(heading);
    let prefix: Vec<char> = Vec::new();
    list_from(tree, layout, 0, false, &prefix, &mut out);
    proof {
        assert(out.deep_view() =~= spec_print_tree(*tree, *layout));
    }
    out
}

} // verus!
