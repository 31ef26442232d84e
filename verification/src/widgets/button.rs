use vstd::prelude::*;
use vstd::assert_seqs_equal;
use vstd::string::{StrSliceExecFns, StringExecFns};

use crate::backend::console::{CommandModel, Console};
use crate::widgets::utility::{
    build_rule, button_cmds, floor_half, text_cmd, Alignment, Rect, MAX_TEXT,
};
use crate::widgets::widget::{Widget, WidgetModel};

verus! {

/// A click action carried by a button. The dispatcher resolves the
/// button's related identifier to a widget somewhere in the tree, hands
/// that widget to [`Callback::apply`], and installs whatever comes back
/// into the slot the match came from.
///
/// A user of the library supplies the callback type; one enum with a
/// variant per distinct action serves a whole tree.
pub trait Callback: Sized {
    /// The mathematical transform this callback performs on the matched
    /// widget.
    spec fn spec_apply(&self, w: WidgetModel<Self>) -> WidgetModel<Self>;

    /// The law every callback obeys: handed a concrete, well-formed
    /// widget it returns a concrete, well-formed widget occupying the same
    /// logical role, so it never grows the tree. Dispatch stays bounded
    /// over the mutated tree because of this.
    proof fn apply_preserves(&self, w: WidgetModel<Self>)
        requires
            w.wf(),
            !(w is Empty),
        ensures
            !(self.spec_apply(w) is Empty),
            self.spec_apply(w).wf(),
            self.spec_apply(w).size() <= w.size();

    /// Perform the transform.
    fn apply(&self, w: Widget<Self>) -> (r: Widget<Self>)
        ensures
            r@ == self.spec_apply(w@);
}

/// The callback that hands the matched widget back unchanged.
pub struct NoopCallback;

impl Callback for NoopCallback {
    open spec fn spec_apply(&self, w: WidgetModel<Self>) -> WidgetModel<Self> {
        w
    }

    proof fn apply_preserves(&self, w: WidgetModel<Self>) {
    }

    fn apply(&self, w: Widget<Self>) -> (r: Widget<Self>) {
        w
    }
}

/// A clickable leaf: text, by default centered and wrapped in a border
/// box, plus the identifier of the widget its click should mutate and the
/// callback that mutates it.
pub struct Button<C> {
    /// Widget identifier, the target name for related-identifier lookups.
    pub id: Option<usize>,
    /// Text to display.
    pub text: String,
    /// Horizontal anchoring of the text.
    pub alignment: Alignment,
    /// Whether a border box is drawn around the text.
    pub wrap: bool,
    /// Related identifier: names the identifier of the widget a click on
    /// this button should ultimately mutate.
    pub rid: Option<usize>,
    /// The click action, applied to the widget the related identifier
    /// resolves to.
    pub callback: Option<C>,
    /// The rectangle this widget last drew its border into.
    pub shape: Rect,
}

impl<C> Button<C> {
    /// A centered, wrapped button without identifiers or callback.
    pub fn new(text: &str) -> (b: Button<C>)
        ensures
            b.id is None,
            b.rid is None,
            b.callback is None,
            b.text@ == text@,
            b.alignment == Alignment::Center,
            b.wrap,
            b.shape == (Rect { x: 0, y: 0, w: 0, h: 0 }),
    {
        Button {
            id: None,
            rid: None,
            callback: None,
            text: String::from_str(text),
            wrap: true,
            alignment: Alignment::Center,
            shape: Rect::default(),
        }
    }

    /// Store the action a click on this button performs. The related
    /// identifier chooses which widget the action is applied to.
    pub fn on_click(self, f: C) -> (r: Button<C>)
        ensures
            r == (Button { callback: Some(f), ..self }),
    {
        Button { callback: Some(f), ..self }
    }

    pub fn id(&self) -> (r: Option<usize>)
        ensures
            r == self.id,
    {
        self.id
    }

    pub fn set_id(self, id: usize) -> (r: Button<C>)
        ensures
            r == (Button { id: Some(id), ..self }),
    {
        Button { id: Some(id), ..self }
    }

    /// Name the identifier of the widget a click should mutate: the button
    /// itself, a sibling, or any widget anywhere in the same tree.
    pub fn set_rid(self, rid: usize) -> (r: Button<C>)
        ensures
            r == (Button { rid: Some(rid), ..self }),
    {
        Button { rid: Some(rid), ..self }
    }

    /// Whether a border box is drawn around the text.
    pub fn is_wrap(&self) -> (r: bool)
        ensures
            r == self.wrap,
    {
        self.wrap
    }

    /// Set the horizontal anchoring of the text.
    pub fn align(self, alignment: Alignment) -> (r: Button<C>)
        ensures
            r == (Button { alignment, ..self }),
    {
        Button { alignment, ..self }
    }

    /// Queue the text draw at its anchor column inside `rect`.
    fn render_text(&self, rect: &Rect, console: &mut Console)
        requires
            self.text@.len() <= MAX_TEXT,
        ensures
            final(console)@ == old(console)@.push(text_cmd(self.alignment, self.text@, *rect)),
    {
        let len: i64 = self.text.as_str().unicode_len() as i64;
        let col: i64 = match self.alignment {
            Alignment::Left => rect.x as i64 + 1,
            Alignment::Center => rect.x as i64 + 1 + floor_half(rect.w as i64 - len),
            Alignment::Right => rect.x as i64 - 1 + (rect.w as i64 - len),
        };
        console.draw((col, rect.y as i64), String::from_str(self.text.as_str()));
    }

    /// Render into `rect`: the bare text at the rectangle's corner when
    /// unwrapped; the border box with the anchored text otherwise, in
    /// which case the cached shape is overwritten with `rect` so that
    /// later hit-testing matches the drawn border.
    pub fn render(&mut self, rect: Rect, console: &mut Console)
        requires
            old(self).text@.len() <= MAX_TEXT,
        ensures
            *final(self) == (if old(self).wrap {
                Button { shape: rect, ..*old(self) }
            } else {
                *old(self)
            }),
            final(console)@ == old(console)@ + button_cmds(
                old(self).alignment,
                old(self).text@,
                old(self).wrap,
                rect,
            ),
    {
        if !self.wrap {
            console.draw((rect.x as i64, rect.y as i64), String::from_str(self.text.as_str()));
            proof {
                assert_seqs_equal!(console@ == old(console)@ + button_cmds(
                    self.alignment, self.text@, self.wrap, rect));
            }
            return;
        }
        let top = build_rule(rect.w, true);
        console.draw((rect.x as i64, rect.y as i64 - 1), top);
        console.draw((rect.x as i64, rect.y as i64), String::from_str("│"));
        self.render_text(&rect, console);
        console.draw((rect.x as i64 + rect.w as i64 - 1, rect.y as i64), String::from_str("│"));
        console.draw((rect.x as i64, rect.y as i64 + 1), build_rule(rect.w, false));
        self.shape = rect;
        proof {
            reveal_strlit("│");
            assert("│"@ =~= seq!['\u{2502}']);
            assert_seqs_equal!(console@ == old(console)@ + button_cmds(
                self.alignment, self.text@, self.wrap, rect));
        }
    }
}

} // verus!
