use vstd::prelude::*;
use vstd::assert_seqs_equal;
use vstd::string::StringExecFns;

use crate::backend::console::CommandModel;

verus! {

/// Upper bound on the number of child slots a container may hold; layout
/// arithmetic stays inside machine integers below this bound.
pub const MAX_SLOTS: usize = 0x7FFF_FFFF;

/// Upper bound on the character length of a leaf widget's text.
pub const MAX_TEXT: usize = 0x7FFF_FFFF;

/// An axis-aligned rectangle in whole character cells: `x` and `y` name the
/// top-left cell, `w` and `h` the extent. A widget receives a rectangle as
/// its allotted region and caches the rectangle it last drew into.
///
/// Coordinates may become negative during layout (a border row above row 0,
/// for instance), so the origin is signed; width and height are never
/// negative and stay unsigned.
#[derive(Clone, Copy, PartialEq, Eq, Structural, Debug)]
pub struct Rect {
    pub x: i32,
    pub y: i32,
    pub w: u32,
    pub h: u32,
}

impl Rect {
    pub fn new(x: i32, y: i32, w: u32, h: u32) -> (r: Rect)
        ensures
            r == (Rect { x, y, w, h }),
    {
        Rect { x, y, w, h }
    }
}

impl Default for Rect {
    /// The zero rectangle: the cached shape of a widget that has never been
    /// rendered.
    fn default() -> (r: Rect)
        ensures
            r == (Rect { x: 0, y: 0, w: 0, h: 0 }),
    {
        Rect { x: 0, y: 0, w: 0, h: 0 }
    }
}

/// Horizontal anchoring of a leaf widget's text inside its rectangle.
#[derive(Clone, Copy, PartialEq, Eq, Structural, Debug)]
pub enum Alignment {
    Left,
    Center,
    Right,
}

/// The column at which a leaf's text starts inside a rectangle at column
/// `x` of width `w`, for text of `len` characters.
///
/// Left anchors one cell in from the left edge; Center places the text at
/// `x + 1 + (w/2 - len/2)` rounded down; Right ends the text one cell in
/// from the right edge. No clipping happens: text longer than the
/// rectangle overflows it.
pub open spec fn align_col(a: Alignment, x: int, w: int, len: int) -> int {
    match a {
        Alignment::Left => x + 1,
        Alignment::Center => x + 1 + (w - len) / 2,
        Alignment::Right => x - 1 + (w - len),
    }
}

/// Number of horizontal rule segments in a border line over a rectangle of
/// width `w`: the width minus the two corners, and none at all for a
/// rectangle too narrow to hold both corners (the minimum-size policy for
/// degenerate layouts).
pub open spec fn rule_span(w: int) -> int {
    if w >= 2 {
        w - 2
    } else {
        0
    }
}

/// A horizontal border line: a corner, `span` rule segments, a corner.
pub open spec fn rule_text(left: char, right: char, span: int) -> Seq<char> {
    seq![left] + Seq::new(span as nat, |i: int| '─') + seq![right]
}

/// The draw command for a leaf's text inside `rect`.
pub open spec fn text_cmd(a: Alignment, text: Seq<char>, rect: Rect) -> CommandModel {
    CommandModel::Draw {
        x: align_col(a, rect.x as int, rect.w as int, text.len() as int),
        y: rect.y as int,
        text,
    }
}

/// The top border line of a wrapped leaf, one row above its rectangle.
pub open spec fn border_top_cmd(rect: Rect) -> CommandModel {
    CommandModel::Draw {
        x: rect.x as int,
        y: rect.y - 1,
        text: rule_text('\u{250C}', '\u{2510}', rule_span(rect.w as int)),
    }
}

/// The left side rule of a wrapped leaf, on the text row.
pub open spec fn border_left_cmd(rect: Rect) -> CommandModel {
    CommandModel::Draw { x: rect.x as int, y: rect.y as int, text: seq!['\u{2502}'] }
}

/// The right side rule of a wrapped leaf, on the text row.
pub open spec fn border_right_cmd(rect: Rect) -> CommandModel {
    CommandModel::Draw { x: rect.x + rect.w - 1, y: rect.y as int, text: seq!['\u{2502}'] }
}

/// The bottom border line of a wrapped leaf, one row below its rectangle.
pub open spec fn border_bottom_cmd(rect: Rect) -> CommandModel {
    CommandModel::Draw {
        x: rect.x as int,
        y: rect.y + 1,
        text: rule_text('\u{2514}', '\u{2518}', rule_span(rect.w as int)),
    }
}

/// The draw commands of a wrapped leaf: border box around the rectangle,
/// with the text drawn between the side rules.
pub open spec fn wrapped_cmds(a: Alignment, text: Seq<char>, rect: Rect) -> Seq<CommandModel> {
    seq![
        border_top_cmd(rect),
        border_left_cmd(rect),
        text_cmd(a, text, rect),
        border_right_cmd(rect),
        border_bottom_cmd(rect),
    ]
}

/// Everything a label draws when rendered into `rect`.
pub open spec fn lable_cmds(a: Alignment, text: Seq<char>, wrap: bool, rect: Rect) -> Seq<
    CommandModel,
> {
    if wrap {
        wrapped_cmds(a, text, rect)
    } else {
        seq![text_cmd(a, text, rect)]
    }
}

/// Everything a button draws when rendered into `rect`. An unwrapped
/// button ignores its alignment and draws at the rectangle's corner.
pub open spec fn button_cmds(a: Alignment, text: Seq<char>, wrap: bool, rect: Rect) -> Seq<
    CommandModel,
> {
    if wrap {
        wrapped_cmds(a, text, rect)
    } else {
        seq![CommandModel::Draw { x: rect.x as int, y: rect.y as int, text }]
    }
}

/// Division by two that rounds towards negative infinity, as the draw
/// column arithmetic calls for.
pub(crate) fn floor_half(d: i64) -> (r: i64)
    requires
        -0x100_0000_0000 <= d <= 0x100_0000_0000,
    ensures
        r == d as int / 2,
{
    if d >= 0 {
        d / 2
    } else {
        -((-d + 1) / 2)
    }
}

/// Build one horizontal border line (top or bottom) for a rectangle of
/// width `w`.
pub(crate) fn build_rule(w: u32, top: bool) -> (s: String)
    ensures
        s@ == rule_text(
            if top { '\u{250C}' } else { '\u{2514}' },
            if top { '\u{2510}' } else { '\u{2518}' },
            rule_span(w as int),
        ),
{
    let ghost left: char = if top { '\u{250C}' } else { '\u{2514}' };
    let mut s = String::from_str(if top { "┌" } else { "└" });
    proof {
        reveal_strlit("┌");
        reveal_strlit("└");
        assert_seqs_equal!(s@ == seq![left] + Seq::new(0, |k: int| '─'));
    }
    let span: u32 = if w >= 2 { w - 2 } else { 0 };
    let mut i: u32 = 0;
    while i < span
        invariant
            i <= span,
            s@ == seq![left] + Seq::new(i as nat, |k: int| '─'),
        decreases span - i,
    {
        s.append("─");
        i = i + 1;
        proof {
            reveal_strlit("─");
            assert_seqs_equal!(s@ == seq![left] + Seq::new(i as nat, |k: int| '─'));
        }
    }
    s.append(if top { "┐" } else { "┘" });
    proof {
        reveal_strlit("┐");
        reveal_strlit("┘");
        assert_seqs_equal!(s@ == rule_text(
            if top { '┌' } else { '└' },
            if top { '┐' } else { '┘' },
            rule_span(w as int),
        ));
    }
    s
}

} // verus!
