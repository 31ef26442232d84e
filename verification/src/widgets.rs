pub mod button;
pub mod dispatch;
pub mod events;
pub mod hbox;
pub mod lable;
pub mod laws;
pub mod utility;
pub mod vbox;
pub mod widget;

use vstd::prelude::*;

use crate::widgets::button::Button;
use crate::widgets::hbox::Hbox;
use crate::widgets::lable::Lable;
use crate::widgets::vbox::Vbox;
use crate::widgets::widget::Widget;

verus! {

/// Conversion of a concrete control into an occupied widget slot, as
/// container builders consume them.
pub trait AsWidget<C>: Sized {
    fn as_widget(self) -> Option<Widget<C>>;
}

impl<C> AsWidget<C> for Lable {
    fn as_widget(self) -> Option<Widget<C>> {
        Option::Some(Widget::Lable(self))
    }
}

impl<C> AsWidget<C> for Button<C> {
    fn as_widget(self) -> Option<Widget<C>> {
        Option::Some(Widget::Button(self))
    }
}

impl<C> AsWidget<C> for Vbox<C> {
    fn as_widget(self) -> Option<Widget<C>> {
        Option::Some(Widget::Vbox(self))
    }
}

impl<C> AsWidget<C> for Hbox<C> {
    fn as_widget(self) -> Option<Widget<C>> {
        Option::Some(Widget::Hbox(self))
    }
}

} // verus!
