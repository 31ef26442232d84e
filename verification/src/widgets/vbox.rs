use vstd::prelude::*;
use vstd::assert_seqs_equal;

use crate::backend::console::Console;
use crate::widgets::utility::{Rect, MAX_SLOTS};
use crate::widgets::widget::{
    render_cmds_from, render_slots, rendered_from, slot_models, slot_ok, slots_fit, slots_full,
    slots_wf, Widget,
};

verus! {

/// A vertical container: divides its rectangle's height evenly among its
/// children and stacks them a fixed three-row stride apart.
pub struct Vbox<C> {
    /// Widget identifier, the target name for related-identifier lookups.
    pub id: Option<usize>,
    /// The child slots, in order. A slot is empty only while its widget
    /// has been taken out for mutation.
    pub widgets: Vec<Option<Widget<C>>>,
    /// Present but unused by layout.
    pub wrap: bool,
    /// The cached shape; layout never updates it for containers.
    pub shape: Rect,
}

impl<C> Vbox<C> {
    pub fn new(widgets: Vec<Option<Widget<C>>>) -> (vb: Vbox<C>)
        ensures
            vb.id is None,
            vb.widgets == widgets,
            !vb.wrap,
            vb.shape == (Rect { x: 0, y: 0, w: 0, h: 0 }),
    {
        Vbox { id: None, widgets, wrap: false, shape: Rect::default() }
    }

    /// Whether a border box would be drawn; containers never enable it.
    pub fn is_wrap(&self) -> (r: bool)
        ensures
            r == self.wrap,
    {
        self.wrap
    }

    /// Containers cannot be wrapped; this does nothing.
    pub fn wrap() {
    }

    pub fn id(&self) -> (r: Option<usize>)
        ensures
            r == self.id,
    {
        self.id
    }

    pub fn set_id(self, id: usize) -> (r: Vbox<C>)
        ensures
            r == (Vbox { id: Some(id), ..self }),
    {
        Vbox { id: Some(id), ..self }
    }

    /// Render every child into its share of `rect`: the height divided
    /// evenly, each child a three-row stride down, leaves inset one row.
    pub fn render(&mut self, rect: Rect, console: &mut Console)
        requires
            old(self).widgets@.len() <= MAX_SLOTS,
            slots_wf(slot_models(old(self).widgets@)),
            slots_full(slot_models(old(self).widgets@)),
            slots_fit(slot_models(old(self).widgets@), rect, true),
        ensures
            final(self).id == old(self).id,
            final(self).wrap == old(self).wrap,
            final(self).shape == old(self).shape,
            final(self).widgets@.len() == old(self).widgets@.len(),
            slots_wf(slot_models(final(self).widgets@)),
            slot_models(final(self).widgets@) == rendered_from(
                slot_models(old(self).widgets@),
                rect,
                true,
                0,
            ),
            final(console)@ == old(console)@ + render_cmds_from(
                slot_models(old(self).widgets@),
                rect,
                true,
                0,
            ),
        decreases
                crate::widgets::widget::slots_size(slot_models(old(self).widgets@), 0),
                2int,
    {
        proof {
            let m = slot_models(self.widgets@);
            assert forall|j: int| 0 <= j < m.len() implies slot_ok(
                #[trigger] m[j],
                rect,
                m.len() as int,
                j,
                true,
            ) by {}
        }
        render_slots(&mut self.widgets, rect, true, console, 0);
        proof {
            crate::widgets::widget::lemma_rendered_slots_wf(
                slot_models(old(self).widgets@),
                rect,
                true,
            );
        }
    }
}

} // verus!

use crate::widgets::button::Callback;
use crate::widgets::dispatch::{
    apply_first_exec, applied_slots, click_from, click_slots_exec, handle_model, trigger_model,
};
use crate::widgets::widget::slots_size;
use crate::widgets::events::{Event, Flow, KeyCode, MouseButton};

verus! {

impl<C: Callback> Vbox<C> {
    /// Resolve the clicked button's related identifier over this
    /// container's widget list, depth-first, and apply its callback to
    /// the first match. The clicked widget itself always comes back
    /// unchanged; a button without a callback, and a related identifier
    /// that matches nothing, leave the list as it was.
    pub fn trigger_callback(&mut self, clicked_widget: Option<Widget<C>>) -> (r: Option<
        Widget<C>,
    >)
        requires
            slots_wf(slot_models(old(self).widgets@)),
            clicked_widget is Some,
            clicked_widget matches Option::Some(w) ==> w@.wf(),
        ensures
            r == clicked_widget,
            final(self).id == old(self).id,
            final(self).wrap == old(self).wrap,
            final(self).shape == old(self).shape,
            final(self).widgets@.len() == old(self).widgets@.len(),
            slots_wf(slot_models(final(self).widgets@)),
            slot_models(final(self).widgets@) == (match clicked_widget {
                Option::Some(w) => trigger_model(slot_models(old(self).widgets@), w@),
                Option::None => slot_models(old(self).widgets@),
            }),
    {
        let ghost m0 = slot_models(old(self).widgets@);
        match &clicked_widget {
            Option::Some(w) => match w {
                Widget::Button(btn) => match &btn.callback {
                    Option::Some(f) => {
                        let rid: usize = match btn.rid {
                            Option::Some(v) => v,
                            Option::None => {
                                proof {
                                    assert(false);
                                }
                                0
                            },
                        };
                        let _found = apply_first_exec(&mut self.widgets, f, rid, 0);
                    },
                    Option::None => {},
                },
                _ => {},
            },
            Option::None => {
                proof {
                    assert(false);
                }
            },
        }
        proof {
            match &clicked_widget {
                Option::Some(w) => {
                    match w@ {
                        crate::widgets::widget::WidgetModel::Button { rid, callback, .. } => {
                            match callback {
                                Option::Some(cb) => match rid {
                                    Option::Some(rv) => {
                                        crate::widgets::dispatch::lemma_applied_slots_props(
                                            m0,
                                            rv,
                                            cb,
                                            0,
                                        );
                                    },
                                    Option::None => {},
                                },
                                Option::None => {},
                            }
                        },
                        _ => {},
                    }
                },
                Option::None => {},
            }
        }
        clicked_widget
    }

    /// Dispatch one decoded input event against this container as the
    /// root of the tree: a resize queues a screen clear, a left click is
    /// hit-tested against every widget's cached rectangle and triggers
    /// the callbacks of the buttons it lands on, the cancel chord queues
    /// a clear and asks the loop to stop, and anything else is ignored.
    pub fn handle_event(&mut self, event: Event, console: &mut Console) -> (flow: Flow)
        requires
            slots_wf(slot_models(old(self).widgets@)),
        ensures
            final(self).id == old(self).id,
            final(self).wrap == old(self).wrap,
            final(self).shape == old(self).shape,
            final(self).widgets@.len() == old(self).widgets@.len(),
            slots_wf(slot_models(final(self).widgets@)),
            flow == (if event.is_cancel() {
                Flow::Terminated
            } else {
                Flow::Running
            }),
            slot_models(final(self).widgets@) == handle_model(
                slot_models(old(self).widgets@),
                event,
            ).0,
            final(console)@ == old(console)@ + handle_model(
                slot_models(old(self).widgets@),
                event,
            ).1,
    {
        let ghost m0 = slot_models(old(self).widgets@);
        let mut flow = Flow::Running;
        match event {
            Event::Resize { .. } => {
                console.clear();
                proof {
                    assert_seqs_equal!(console@ == old(console)@ + handle_model(m0, event).1);
                }
            },
            Event::MouseDown { button, column, row } => match button {
                MouseButton::Left => {
                    click_slots_exec(&mut self.widgets, column, row, true, console, 0);
                    proof {
                        assert(slots_size(m0, 0) >= slots_size(m0, 0));
                        assert(slot_models(self.widgets@) == click_from(
                            slots_size(m0, 0),
                            m0,
                            column as int,
                            row as int,
                            true,
                            0,
                        ).0);
                    }
                },
                _ => {
                    proof {
                        assert_seqs_equal!(console@ == old(console)@ + handle_model(m0, event).1);
                    }
                },
            },
            Event::KeyPress { code, modifiers } => {
                let cancel: bool = match code {
                    KeyCode::Esc => !modifiers.shift && !modifiers.control && !modifiers.alt,
                    _ => false,
                };
                proof {
                    assert(cancel == event.is_cancel());
                }
                if cancel {
                    console.clear();
                    flow = Flow::Terminated;
                    proof {
                        assert_seqs_equal!(console@ == old(console)@ + handle_model(m0, event).1);
                    }
                } else {
                    proof {
                        assert_seqs_equal!(console@ == old(console)@ + handle_model(m0, event).1);
                    }
                }
            },
            Event::Other => {
                proof {
                    assert_seqs_equal!(console@ == old(console)@ + handle_model(m0, event).1);
                }
            },
        }
        flow
    }
}

/// Walk `vbox`'s widgets against a left click at (`column`, `row`) with
/// the nested hit test: trigger the callback of every button the click
/// lands on, resolving over this container's own list, and queue a flush
/// after each hit.
pub fn inner_vbox_render<C: Callback>(
    vbox: &mut Vbox<C>,
    column: u16,
    row: u16,
    console: &mut Console,
)
    requires
        slots_wf(slot_models(old(vbox).widgets@)),
    ensures
        final(vbox).id == old(vbox).id,
        final(vbox).wrap == old(vbox).wrap,
        final(vbox).shape == old(vbox).shape,
        final(vbox).widgets@.len() == old(vbox).widgets@.len(),
        slots_wf(slot_models(final(vbox).widgets@)),
        slot_models(final(vbox).widgets@) == click_from(
            slots_size(slot_models(old(vbox).widgets@), 0),
            slot_models(old(vbox).widgets@),
            column as int,
            row as int,
            false,
            0,
        ).0,
        final(console)@ == old(console)@ + click_from(
            slots_size(slot_models(old(vbox).widgets@), 0),
            slot_models(old(vbox).widgets@),
            column as int,
            row as int,
            false,
            0,
        ).1,
{
    click_slots_exec(&mut vbox.widgets, column, row, false, console, 0);
}

/// Resolve `rid` over `vbox`'s widget list, depth-first, and apply `f`
/// to the first widget whose identifier matches; say whether a match was
/// found.
pub fn inner_vbox_trigger<C: Callback>(vbox: &mut Vbox<C>, f: &C, rid: usize) -> (found: bool)
    requires
        slots_wf(slot_models(old(vbox).widgets@)),
    ensures
        final(vbox).id == old(vbox).id,
        final(vbox).wrap == old(vbox).wrap,
        final(vbox).shape == old(vbox).shape,
        final(vbox).widgets@.len() == old(vbox).widgets@.len(),
        slot_models(final(vbox).widgets@) == applied_slots(
            slot_models(old(vbox).widgets@),
            rid,
            *f,
            0,
        ).0,
        found == applied_slots(slot_models(old(vbox).widgets@), rid, *f, 0).1,
{
    apply_first_exec(&mut vbox.widgets, f, rid, 0)
}

} // verus!
