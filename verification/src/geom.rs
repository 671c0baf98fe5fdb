//! The box geometry resolver: reconciles the `top`/`left`/`right`/`bottom`/
//! `width`/`height` properties of an absolutely positioned node with the
//! container size into an absolute box.
//!
//! The `top`/`left` pair takes total precedence over `bottom`/`right` for
//! position: the opposite insets only anchor a missing inset or derive a
//! missing size. This is a deliberate simplification of CSS inset resolution.

use vstd::prelude::*;

use crate::style::LEN_MAX;

verus! {

/// Resolved absolute box geometry, in surface coordinates.
#[derive(Clone, Copy, PartialEq, Eq, Structural, Debug)]
pub struct AbsBox {
    pub x: i64,
    pub y: i64,
    pub width: i64,
    pub height: i64,
}

/// The optional position-family properties of a node, read as pixel lengths.
/// An unset field means the property was absent or did not resolve to a
/// length.
#[derive(Clone, Copy, PartialEq, Eq, Structural, Debug)]
pub struct Insets {
    pub top: Option<i64>,
    pub left: Option<i64>,
    pub right: Option<i64>,
    pub bottom: Option<i64>,
    pub width: Option<i64>,
    pub height: Option<i64>,
}

pub open spec fn opt_len_wf(v: Option<i64>) -> bool {
    match v {
        Some(n) => -LEN_MAX <= n <= LEN_MAX,
        None => true,
    }
}

impl Insets {
    /// Every set field lies in the `LEN_MAX` range, as the value readers
    /// guarantee.
    pub open spec fn wf(&self) -> bool {
        &&& opt_len_wf(self.top)
        &&& opt_len_wf(self.left)
        &&& opt_len_wf(self.right)
        &&& opt_len_wf(self.bottom)
        &&& opt_len_wf(self.width)
        &&& opt_len_wf(self.height)
    }
}

/// One axis of inset resolution: the start inset itself when set, else the
/// position anchored at the opposite edge (`extent - opposite`), else unknown.
pub open spec fn spec_resolve_inset(main: Option<i64>, opposite: Option<i64>, extent: i64) -> Option<
    int,
> {
    match main {
        Some(v) => Some(v as int),
        None => match opposite {
            Some(o) => Some(extent - o),
            None => None,
        },
    }
}

/// One axis of size resolution: the size property when set, else the span
/// from the resolved origin to the opposite edge (`extent - opposite -
/// origin`), else zero, which collapses the box.
pub open spec fn spec_resolve_size(
    size: Option<i64>,
    opposite: Option<i64>,
    extent: i64,
    origin: int,
) -> int {
    match size {
        Some(v) => v as int,
        None => match opposite {
            Some(o) => extent - o - origin,
            None => 0,
        },
    }
}

/// The whole box: `top`/`left` resolved first (anchoring at the opposite
/// edge when unset), then the sizes. A node whose `top` or `left` cannot be
/// resolved has no box; a box whose width or height does not come out
/// positive collapses and is skipped, so zero-area boxes are never painted.
pub open spec fn spec_resolve_box(insets: Insets, cw: i64, ch: i64) -> Option<AbsBox> {
    let top = spec_resolve_inset(insets.top, insets.bottom, ch);
    let left = spec_resolve_inset(insets.left, insets.right, cw);
    if top is None || left is None {
        None
    } else {
        let x = left->Some_0;
        let y = top->Some_0;
        let w = spec_resolve_size(insets.width, insets.right, cw, x);
        let h = spec_resolve_size(insets.height, insets.bottom, ch, y);
        if w <= 0 || h <= 0 {
            None
        } else {
            Some(AbsBox { x: x as i64, y: y as i64, width: w as i64, height: h as i64 })
        }
    }
}

/// Bottom-anchored resolution: with the start inset unset and the opposite
/// one set to `b`, the resolved position is exactly `extent - b`. For the
/// vertical axis that reads `top == height - bottom`; the horizontal axis is
/// symmetric (`left == width - right`).
pub proof fn lemma_opposite_anchoring(b: i64, extent: i64)
    ensures
        spec_resolve_inset(None, Some(b), extent) == Some(extent - b as int),
{
}

/// The same anchoring seen at the box level: a node with `top` unset and
/// `bottom = b` that resolves to a box sits at `y == ch - b`, and one with
/// `left` unset and `right = r` sits at `x == cw - r`.
pub proof fn lemma_opposite_anchoring_box(insets: Insets, cw: i64, ch: i64)
    requires
        insets.wf(),
        0 <= cw <= LEN_MAX,
        0 <= ch <= LEN_MAX,
    ensures
        spec_resolve_box(insets, cw, ch) matches Some(bx) ==> {
            &&& insets.top is None && insets.bottom is Some ==> bx.y as int == ch
                - insets.bottom->Some_0
            &&& insets.left is None && insets.right is Some ==> bx.x as int == cw
                - insets.right->Some_0
        },
{
}

/// A resolved box always has strictly positive width and height: a box that
/// collapses to zero (or inverts) is skipped, never painted.
pub proof fn lemma_resolved_box_positive(insets: Insets, cw: i64, ch: i64)
    requires
        insets.wf(),
        0 <= cw <= LEN_MAX,
        0 <= ch <= LEN_MAX,
    ensures
        spec_resolve_box(insets, cw, ch) matches Some(b) ==> b.width > 0 && b.height > 0,
{
}

/// Every resolved box lies in a small multiple of the `LEN_MAX` range, so
/// corner arithmetic downstream stays far inside `i64`.
pub proof fn lemma_resolved_box_bounds(insets: Insets, cw: i64, ch: i64)
    requires
        insets.wf(),
        0 <= cw <= LEN_MAX,
        0 <= ch <= LEN_MAX,
    ensures
        spec_resolve_box(insets, cw, ch) matches Some(b) ==> {
            &&& -2 * LEN_MAX <= b.x <= 2 * LEN_MAX
            &&& -2 * LEN_MAX <= b.y <= 2 * LEN_MAX
            &&& 0 < b.width <= 4 * LEN_MAX
            &&& 0 < b.height <= 4 * LEN_MAX
        },
{
}

/// Resolves the absolute box of a node from its position-family properties
/// and the container size.
pub fn resolve_box(insets: &Insets, cw: i64, ch: i64) -> (r: Option<AbsBox>)
    requires
        insets.wf(),
        0 <= cw <= LEN_MAX,
        0 <= ch <= LEN_MAX,
    ensures
        r == spec_resolve_box(*insets, cw, ch),
{
    let top: i64 = match insets.top {
        Some(v) => v,
        None => match insets.bottom {
            Some(o) => ch - o,
            None => {
                return None;
            },
        },
    };
    let left: i64 = match insets.left {
        Some(v) => v,
        None => match insets.right {
            Some(o) => cw - o,
            None => {
                return None;
            },
        },
    };
    let w: i64 = match insets.width {
        Some(v) => v,
        None => match insets.right {
            Some(o) => cw - o - left,
            None => 0,
        },
    };
    let h: i64 = match insets.height {
        Some(v) => v,
        None => match insets.bottom {
            Some(o) => ch - o - top,
            None => 0,
        },
    };
    if w <= 0 || h <= 0 {
        None
    } else {
        Some(AbsBox { x: left, y: top, width: w, height: h })
    }
}

} // verus!
