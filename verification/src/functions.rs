use vstd::prelude::*;

use crate::widgets::button::Button;
use crate::widgets::hbox::Hbox;
use crate::widgets::lable::Lable;
use crate::widgets::utility::{Alignment, Rect};
use crate::widgets::vbox::Vbox;
use crate::widgets::widget::Widget;

verus! {

/// Construct a new vertical box over the given slots.
pub fn vbox<C>(widgets: Vec<Option<Widget<C>>>) -> (vb: Vbox<C>)
    ensures
        vb.id is None,
        vb.widgets == widgets,
        !vb.wrap,
        vb.shape == (Rect { x: 0, y: 0, w: 0, h: 0 }),
{
    Vbox::new(widgets)
}

/// Construct a new horizontal box over the given slots.
pub fn hbox<C>(widgets: Vec<Option<Widget<C>>>) -> (hb: Hbox<C>)
    ensures
        hb.id is None,
        hb.widgets == widgets,
        !hb.wrap,
        hb.shape == (Rect { x: 0, y: 0, w: 0, h: 0 }),
{
    Hbox::new(widgets)
}

/// Construct a new label.
pub fn lable(text: &str) -> (l: Lable)
    ensures
        l.id is None,
        l.text@ == text@,
        l.alignment == Alignment::Left,
        !l.wrap,
        l.shape == (Rect { x: 0, y: 0, w: 0, h: 0 }),
{
    Lable::new(text)
}

/// Construct a new button.
pub fn button<C>(text: &str) -> (b: Button<C>)
    ensures
        b.id is None,
        b.rid is None,
        b.callback is None,
        b.text@ == text@,
        b.alignment == Alignment::Center,
        b.wrap,
        b.shape == (Rect { x: 0, y: 0, w: 0, h: 0 }),
{
    Button::new(text)
}

} // verus!
