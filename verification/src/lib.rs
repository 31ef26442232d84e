//! A small terminal widget toolkit: a tree of layout containers (vertical and
//! horizontal boxes) and leaf controls (labels, buttons) that is laid out
//! recursively, rendered as a queue of terminal draw commands, and wired to
//! mouse and keyboard input through an event dispatcher.
//!
//! The library itself performs no input or output: rendering appends commands
//! to a [`Console`] buffer and event handling consumes already-decoded
//! [`Event`] values, so a thin terminal adapter around the library drives the
//! actual screen and input device.

mod backend;
pub mod functions;
mod widgets;

pub use backend::console::{Command, CommandModel, Console};
pub use widgets::button::{Button, Callback, NoopCallback};
pub use widgets::events::{Event, Flow, KeyCode, Modifiers, MouseButton};
pub use widgets::hbox::{inner_hbox_render, inner_hbox_trigger, Hbox};
pub use widgets::lable::Lable;
pub use widgets::utility::{Alignment, Rect, MAX_SLOTS, MAX_TEXT};
pub use widgets::vbox::{inner_vbox_render, inner_vbox_trigger, Vbox};
pub use widgets::widget::{lemma_render_preserves_wf, slot_models, slots_wf, Widget, WidgetModel};
pub use widgets::dispatch::{
    applied_slots, click_from, handle_model, spec_hit, trigger_model, widget_has_rid,
};
pub use widgets::laws::{lemma_no_match_no_mutation, lemma_single_hit_triggers_once,
    lemma_split_span_sum};
pub use widgets::AsWidget;
