use vstd::prelude::*;
use vstd::assert_seqs_equal;
use vstd::string::{StrSliceExecFns, StringExecFns};

use crate::backend::console::Console;
use crate::widgets::utility::{
    build_rule, floor_half, lable_cmds, text_cmd, Alignment, Rect, MAX_TEXT,
};

verus! {

/// A static line of text: the simplest leaf widget. It draws its text at
/// an anchor point of its rectangle and, when wrapped, a one-cell border
/// box around it.
pub struct Lable {
    /// Widget identifier, the target name for related-identifier lookups.
    pub id: Option<usize>,
    /// Text to display.
    pub text: String,
    /// Horizontal anchoring of the text.
    pub alignment: Alignment,
    /// Whether a border box is drawn around the text.
    pub wrap: bool,
    /// The rectangle this widget last drew its border into.
    pub shape: Rect,
}

impl Lable {
    /// A left-aligned, unwrapped label without an identifier.
    pub fn new(text: &str) -> (l: Lable)
        ensures
            l.id is None,
            l.text@ == text@,
            l.alignment == Alignment::Left,
            !l.wrap,
            l.shape == (Rect { x: 0, y: 0, w: 0, h: 0 }),
    {
        Lable {
            id: None,
            text: String::from_str(text),
            alignment: Alignment::Left,
            wrap: false,
            shape: Rect::default(),
        }
    }

    pub fn id(&self) -> (r: Option<usize>)
        ensures
            r == self.id,
    {
        self.id
    }

    pub fn set_id(self, id: usize) -> (r: Lable)
        ensures
            r == (Lable { id: Some(id), ..self }),
    {
        Lable { id: Some(id), ..self }
    }

    /// Whether a border box is drawn around the text.
    pub fn is_wrap(&self) -> (r: bool)
        ensures
            r == self.wrap,
    {
        self.wrap
    }

    /// Enable the border box.
    pub fn wrap(self) -> (r: Lable)
        ensures
            r == (Lable { wrap: true, ..self }),
    {
        Lable { wrap: true, ..self }
    }

    /// Set the horizontal anchoring of the text.
    pub fn align(self, alignment: Alignment) -> (r: Lable)
        ensures
            r == (Lable { alignment, ..self }),
    {
        Lable { alignment, ..self }
    }

    /// Queue the text draw at its anchor column inside `rect`.
    fn render_text(&self, rect: &Rect, console: &mut Console)
        requires
            self.text@.len() <= MAX_TEXT,
        ensures
            final(console)@ == old(console)@.push(text_cmd(self.alignment, self.text@, *rect)),
    {
        let len: i64 = self.text.as_str().unicode_len() as i64;
        let col: i64 = match self.alignment {
            Alignment::Left => rect.x as i64 + 1,
            Alignment::Center => rect.x as i64 + 1 + floor_half(rect.w as i64 - len),
            Alignment::Right => rect.x as i64 - 1 + (rect.w as i64 - len),
        };
        console.draw((col, rect.y as i64), String::from_str(self.text.as_str()));
    }

    /// Render into `rect`: the text alone when unwrapped; with a border box
    /// otherwise, in which case the cached shape is overwritten with `rect`
    /// so that later hit-testing matches the drawn border.
    pub fn render(&mut self, rect: Rect, console: &mut Console)
        requires
            old(self).text@.len() <= MAX_TEXT,
        ensures
            *final(self) == (if old(self).wrap {
                Lable { shape: rect, ..*old(self) }
            } else {
                *old(self)
            }),
            final(console)@ == old(console)@ + lable_cmds(
                old(self).alignment,
                old(self).text@,
                old(self).wrap,
                rect,
            ),
    {
        if !self.wrap {
            self.render_text(&rect, console);
            proof {
                assert_seqs_equal!(console@ == old(console)@ + lable_cmds(
                    self.alignment, self.text@, self.wrap, rect));
            }
            return;
        }
        let top = build_rule(rect.w, true);
        console.draw((rect.x as i64, rect.y as i64 - 1), top);
        console.draw((rect.x as i64, rect.y as i64), String::from_str("│"));
        self.render_text(&rect, console);
        console.draw((rect.x as i64 + rect.w as i64 - 1, rect.y as i64), String::from_str("│"));
        console.draw((rect.x as i64, rect.y as i64 + 1), build_rule(rect.w, false));
        self.shape = rect;
        proof {
            reveal_strlit("│");
            assert("│"@ =~= seq!['\u{2502}']);
            assert_seqs_equal!(console@ == old(console)@ + lable_cmds(
                self.alignment, self.text@, self.wrap, rect));
        }
    }
}

} // verus!
