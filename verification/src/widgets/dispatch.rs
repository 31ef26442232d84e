use vstd::prelude::*;
use vstd::assert_seqs_equal;

use crate::backend::console::CommandModel;
use crate::widgets::button::Callback;
use crate::widgets::utility::Rect;
use crate::widgets::widget::{slot_models, slot_wf, slots_size, slots_wf, Widget, WidgetModel};

verus! {

/// The hit test against a cached rectangle: row-exact, column within the
/// rectangle's horizontal span. At the top level the right bound is
/// `x + w` inclusive; inside nested containers it narrows to `x + w - 1`,
/// treating the border's right rule as outside the clickable area.
pub open spec fn spec_hit(shape: Rect, c: int, r: int, top: bool) -> bool {
    shape.x <= c && (if top {
        shape.x + shape.w >= c
    } else {
        shape.x + shape.w - 1 >= c
    }) && shape.y == r
}

/// The widget count of one slot; an empty slot counts for nothing.
pub open spec fn slot_size<C>(s: Option<WidgetModel<C>>) -> nat {
    match s {
        Option::Some(m) => m.size(),
        Option::None => 0,
    }
}

/// Whether some widget in this subtree carries identifier `rid`, a
/// container's own identifier counting before its children's.
pub open spec fn widget_has_rid<C>(m: WidgetModel<C>, rid: usize) -> bool
    decreases m, 0int,
{
    if m.spec_id() == Some(rid) {
        true
    } else {
        match m {
            WidgetModel::Vbox { slots, .. } => slots_have_rid(slots, rid, 0),
            WidgetModel::Hbox { slots, .. } => slots_have_rid(slots, rid, 0),
            _ => false,
        }
    }
}

/// Whether some widget in the slots from `from` on carries `rid`.
pub open spec fn slots_have_rid<C>(slots: Seq<Option<WidgetModel<C>>>, rid: usize, from: int) -> bool
    decreases slots, slots.len() - from,
{
    if from < 0 || from >= slots.len() {
        false
    } else {
        (match slots[from] {
            Option::Some(m) => widget_has_rid(m, rid),
            Option::None => false,
        }) || slots_have_rid(slots, rid, from + 1)
    }
}

/// Resolution inside one widget: if its own identifier matches, the
/// callback transforms it; otherwise a container searches its children
/// depth-first. The second component says whether a match was found.
pub open spec fn applied_widget<C: Callback>(m: WidgetModel<C>, rid: usize, cb: C) -> (
    WidgetModel<C>,
    bool,
)
    decreases m, 0int,
{
    if m.spec_id() == Some(rid) {
        (cb.spec_apply(m), true)
    } else {
        match m {
            WidgetModel::Vbox { id, slots, wrap, shape } => {
                let r = applied_slots(slots, rid, cb, 0);
                (WidgetModel::Vbox { id, slots: r.0, wrap, shape }, r.1)
            },
            WidgetModel::Hbox { id, slots, wrap, shape } => {
                let r = applied_slots(slots, rid, cb, 0);
                (WidgetModel::Hbox { id, slots: r.0, wrap, shape }, r.1)
            },
            _ => (m, false),
        }
    }
}

/// Resolution over a slot list from `from` on, in insertion order, outer
/// before inner at each level: the first widget whose identifier equals
/// `rid` is replaced by what the callback makes of it, and the search
/// stops. Empty slots are passed over. When nothing matches, the slots
/// come back unchanged: the silent no-op.
pub open spec fn applied_slots<C: Callback>(
    slots: Seq<Option<WidgetModel<C>>>,
    rid: usize,
    cb: C,
    from: int,
) -> (Seq<Option<WidgetModel<C>>>, bool)
    decreases slots, slots.len() - from,
{
    if from < 0 || from >= slots.len() {
        (slots, false)
    } else {
        match slots[from] {
            Option::Some(m) => {
                let rw = applied_widget(m, rid, cb);
                if rw.1 {
                    (slots.update(from, Option::Some(rw.0)), true)
                } else {
                    applied_slots(slots, rid, cb, from + 1)
                }
            },
            Option::None => applied_slots(slots, rid, cb, from + 1),
        }
    }
}

/// Resolution never changes how many slots a list has.
pub proof fn lemma_applied_slots_len<C: Callback>(
    slots: Seq<Option<WidgetModel<C>>>,
    rid: usize,
    cb: C,
    from: int,
)
    ensures
        applied_slots(slots, rid, cb, from).0.len() == slots.len(),
    decreases slots.len() - from,
{
    if from < 0 || from >= slots.len() {
    } else {
        lemma_applied_slots_len(slots, rid, cb, from + 1);
    }
}

/// A slot suffix weighs at least any one of its slots.
pub proof fn lemma_slots_size_index_ge<C>(slots: Seq<Option<WidgetModel<C>>>, from: int, i: int)
    requires
        0 <= from <= i < slots.len(),
    ensures
        slots_size(slots, from) >= slot_size(slots[i]),
    decreases i - from,
{
    if from < i {
        lemma_slots_size_index_ge(slots, from + 1, i);
    }
}

/// How one replaced slot changes a suffix weight.
pub proof fn lemma_slots_size_update<C>(
    slots: Seq<Option<WidgetModel<C>>>,
    from: int,
    i: int,
    v: Option<WidgetModel<C>>,
)
    requires
        0 <= from <= i < slots.len(),
    ensures
        slots_size(slots.update(i, v), from) + slot_size(slots[i]) == slots_size(slots, from)
            + slot_size(v),
    decreases i - from,
{
    if from < i {
        lemma_slots_size_update(slots, from + 1, i, v);
    } else {
        crate::widgets::widget::lemma_slots_size_agree(
            slots.update(i, v),
            slots,
            from + 1,
        );
    }
}

/// What resolution does to one well-formed widget: the result stays
/// concrete and well formed, never grows, and keeps its identifier slot
/// count; a widget without the identifier anywhere comes back unchanged.
pub proof fn lemma_applied_widget_props<C: Callback>(m: WidgetModel<C>, rid: usize, cb: C)
    requires
        m.wf(),
        !(m is Empty),
    ensures
        !(applied_widget(m, rid, cb).0 is Empty),
        applied_widget(m, rid, cb).0.wf(),
        applied_widget(m, rid, cb).0.size() <= m.size(),
        applied_widget(m, rid, cb).1 == widget_has_rid(m, rid),
        !applied_widget(m, rid, cb).1 ==> applied_widget(m, rid, cb).0 == m,
    decreases m, 0int,
{
    if m.spec_id() == Some(rid) {
        cb.apply_preserves(m);
    } else {
        match m {
            WidgetModel::Vbox { id, slots, wrap, shape } => {
                lemma_applied_slots_props(slots, rid, cb, 0);
                assert(applied_widget(m, rid, cb).0 =~= WidgetModel::Vbox {
                    id,
                    slots: applied_slots(slots, rid, cb, 0).0,
                    wrap,
                    shape,
                });
            },
            WidgetModel::Hbox { id, slots, wrap, shape } => {
                lemma_applied_slots_props(slots, rid, cb, 0);
                assert(applied_widget(m, rid, cb).0 =~= WidgetModel::Hbox {
                    id,
                    slots: applied_slots(slots, rid, cb, 0).0,
                    wrap,
                    shape,
                });
            },
            _ => {},
        }
    }
}

/// What resolution does to a well-formed slot list: slot count kept,
/// well-formedness kept, total weight never grown, empty slots left
/// alone, the found flag agrees with whether the identifier occurs, and
/// no match means no change at all.
pub proof fn lemma_applied_slots_props<C: Callback>(
    slots: Seq<Option<WidgetModel<C>>>,
    rid: usize,
    cb: C,
    from: int,
)
    requires
        slots_wf(slots),
    ensures
        applied_slots(slots, rid, cb, from).0.len() == slots.len(),
        slots_wf(applied_slots(slots, rid, cb, from).0),
        slots_size(applied_slots(slots, rid, cb, from).0, 0) <= slots_size(slots, 0),
        forall|j: int|
            0 <= j < slots.len() && slots[j] is None ==> applied_slots(slots, rid, cb, from).0[j]
                is None,
        applied_slots(slots, rid, cb, from).1 == slots_have_rid(slots, rid, from),
        !applied_slots(slots, rid, cb, from).1 ==> applied_slots(slots, rid, cb, from).0 == slots,
    decreases slots, slots.len() - from,
{
    if from < 0 || from >= slots.len() {
    } else {
        match slots[from] {
            Option::Some(m) => {
                lemma_applied_widget_props(m, rid, cb);
                let rw = applied_widget(m, rid, cb);
                if rw.1 {
                    let res = slots.update(from, Option::Some(rw.0));
                    assert forall|i: int| 0 <= i < res.len() implies slot_wf(#[trigger] res[i]) by {
                        if i != from {
                            assert(res[i] == slots[i]);
                        }
                    }
                    lemma_slots_size_update(slots, 0, from, Option::Some(rw.0));
                } else {
                    lemma_applied_slots_props(slots, rid, cb, from + 1);
                }
            },
            Option::None => {
                lemma_applied_slots_props(slots, rid, cb, from + 1);
            },
        }
    }
}

/// What a click on `clicked` does to the slot list it was taken from: a
/// button with a callback has its related identifier resolved over the
/// list and the callback applied to the first match; anything else, and a
/// button without a callback, changes nothing.
pub open spec fn trigger_model<C: Callback>(
    slots: Seq<Option<WidgetModel<C>>>,
    clicked: WidgetModel<C>,
) -> Seq<Option<WidgetModel<C>>> {
    match clicked {
        WidgetModel::Button { rid, callback, .. } => match callback {
            Option::Some(cb) => match rid {
                Option::Some(rv) => applied_slots(slots, rv, cb, 0).0,
                Option::None => slots,
            },
            Option::None => slots,
        },
        _ => slots,
    }
}

/// A container with its child slots replaced.
pub open spec fn with_slots<C>(m: WidgetModel<C>, s: Seq<Option<WidgetModel<C>>>) -> WidgetModel<
    C,
> {
    match m {
        WidgetModel::Vbox { id, wrap, shape, .. } => WidgetModel::Vbox { id, slots: s, wrap, shape },
        WidgetModel::Hbox { id, wrap, shape, .. } => WidgetModel::Hbox { id, slots: s, wrap, shape },
        _ => m,
    }
}

/// The click walk over the slots from `from` on: each slot is examined
/// once, in order, against the tree as the walk has left it so far. A
/// button whose cached rectangle is hit is taken out, its click triggered
/// over the rest of the list, and put back, followed by a screen clear at
/// the top level or a flush inside a nested container; a container is
/// walked recursively with the narrowed hit test; everything else is
/// passed over. The commands of all steps are queued in order. The fuel
/// bounds how deep the walk descends; any fuel of at least the tree's
/// weight is enough.
pub open spec fn click_from<C: Callback>(
    fuel: nat,
    slots: Seq<Option<WidgetModel<C>>>,
    c: int,
    r: int,
    top: bool,
    from: int,
) -> (Seq<Option<WidgetModel<C>>>, Seq<CommandModel>)
    decreases fuel, slots.len() - from, 1int,
    via click_from_dec::<C>
{
    if from < 0 || from >= slots.len() {
        (slots, Seq::empty())
    } else {
        let step: (Seq<Option<WidgetModel<C>>>, Seq<CommandModel>) = match slots[from] {
            Option::Some(m) => {
                if m is Button && spec_hit(m.spec_shape(), c, r, top) {
                    let hole = slots.update(from, Option::None);
                    let after = trigger_model(hole, m);
                    (
                        after.update(from, Option::Some(m)),
                        seq![
                            if top {
                                CommandModel::Clear
                            } else {
                                CommandModel::Flush
                            },
                        ],
                    )
                } else if m.is_container() && fuel > 0 {
                    let inner = click_from((fuel - 1) as nat, m.spec_slots(), c, r, false, 0);
                    (slots.update(from, Option::Some(with_slots(m, inner.0))), inner.1)
                } else {
                    (slots, Seq::empty())
                }
            },
            Option::None => (slots, Seq::empty()),
        };
        let rest = click_from(fuel, step.0, c, r, top, from + 1);
        (rest.0, step.1 + rest.1)
    }
}

#[via_fn]
proof fn click_from_dec<C: Callback>(
    fuel: nat,
    slots: Seq<Option<WidgetModel<C>>>,
    c: int,
    r: int,
    top: bool,
    from: int,
) {
    if 0 <= from < slots.len() {
        match slots[from] {
            Option::Some(m) => {
                if m is Button && spec_hit(m.spec_shape(), c, r, top) {
                    let hole = slots.update(from, Option::None);
                    match m {
                        WidgetModel::Button { rid, callback, .. } => match callback {
                            Option::Some(cb) => match rid {
                                Option::Some(rv) => {
                                    lemma_applied_slots_len(hole, rv, cb, 0);
                                },
                                Option::None => {},
                            },
                            Option::None => {},
                        },
                        _ => {},
                    }
                    assert(trigger_model(hole, m).len() == slots.len());
                }
            },
            Option::None => {},
        }
    }
}

/// One step of the click walk, at slot `from`, as [`click_from`] takes
/// it.
pub open spec fn click_step<C: Callback>(
    fuel: nat,
    slots: Seq<Option<WidgetModel<C>>>,
    c: int,
    r: int,
    top: bool,
    from: int,
) -> (Seq<Option<WidgetModel<C>>>, Seq<CommandModel>)
    decreases fuel, slots.len() - from, 0int,
{
    match slots[from] {
        Option::Some(m) => {
            if m is Button && spec_hit(m.spec_shape(), c, r, top) {
                let hole = slots.update(from, Option::None);
                let after = trigger_model(hole, m);
                (
                    after.update(from, Option::Some(m)),
                    seq![
                        if top {
                            CommandModel::Clear
                        } else {
                            CommandModel::Flush
                        },
                    ],
                )
            } else if m.is_container() && fuel > 0 {
                let inner = click_from((fuel - 1) as nat, m.spec_slots(), c, r, false, 0);
                (slots.update(from, Option::Some(with_slots(m, inner.0))), inner.1)
            } else {
                (slots, Seq::empty())
            }
        },
        Option::None => (slots, Seq::empty()),
    }
}

/// The walk over a non-empty suffix is one step followed by the walk over
/// the rest of the stepped slots.
pub proof fn lemma_click_unfold<C: Callback>(
    fuel: nat,
    slots: Seq<Option<WidgetModel<C>>>,
    c: int,
    r: int,
    top: bool,
    from: int,
)
    requires
        0 <= from < slots.len(),
    ensures
        click_from(fuel, slots, c, r, top, from).0 == click_from(
            fuel,
            click_step(fuel, slots, c, r, top, from).0,
            c,
            r,
            top,
            from + 1,
        ).0,
        click_from(fuel, slots, c, r, top, from).1 == click_step(fuel, slots, c, r, top, from).1
            + click_from(fuel, click_step(fuel, slots, c, r, top, from).0, c, r, top, from + 1).1,
{
}

/// What the click walk keeps invariant over a well-formed slot list: the
/// slot count, well-formedness, and the total weight never grows.
pub proof fn lemma_click_step_props<C: Callback>(
    fuel: nat,
    slots: Seq<Option<WidgetModel<C>>>,
    c: int,
    r: int,
    top: bool,
    from: int,
)
    requires
        slots_wf(slots),
        0 <= from < slots.len(),
    ensures
        click_step(fuel, slots, c, r, top, from).0.len() == slots.len(),
        slots_wf(click_step(fuel, slots, c, r, top, from).0),
        slots_size(click_step(fuel, slots, c, r, top, from).0, 0) <= slots_size(slots, 0),
    decreases fuel, slots.len() - from, 1int,
{
    match slots[from] {
        Option::Some(m) => {
            if m is Button && spec_hit(m.spec_shape(), c, r, top) {
                let hole = slots.update(from, Option::None);
                assert forall|i: int| 0 <= i < hole.len() implies slot_wf(#[trigger] hole[i]) by {
                    if i != from {
                        assert(hole[i] == slots[i]);
                    }
                }
                lemma_slots_size_update(slots, 0, from, Option::None);
                let after = trigger_model(hole, m);
                assert(hole[from] is None);
                match m {
                    WidgetModel::Button { rid, callback, .. } => match callback {
                        Option::Some(cb) => match rid {
                            Option::Some(rv) => {
                                lemma_applied_slots_props(hole, rv, cb, 0);
                                assert(after == applied_slots(hole, rv, cb, 0).0);
                                assert(after.len() == slots.len());
                                assert(after[from] is None);
                            },
                            Option::None => {},
                        },
                        Option::None => {},
                    },
                    _ => {},
                }
                assert(after[from] is None);
                let back = after.update(from, Option::Some(m));
                assert forall|i: int| 0 <= i < back.len() implies slot_wf(#[trigger] back[i]) by {
                    if i != from {
                        assert(back[i] == after[i]);
                    }
                }
                lemma_slots_size_update(after, 0, from, Option::Some(m));
            } else if m.is_container() && fuel > 0 {
                let inner_slots = m.spec_slots();
                assert(slot_wf(slots[from]));
                let inner = click_from((fuel - 1) as nat, inner_slots, c, r, false, 0);
                lemma_click_props((fuel - 1) as nat, inner_slots, c, r, false, 0);
                let neww = with_slots(m, inner.0);
                assert(neww.wf());
                assert(neww.size() <= m.size());
                let res = slots.update(from, Option::Some(neww));
                assert forall|i: int| 0 <= i < res.len() implies slot_wf(#[trigger] res[i]) by {
                    if i != from {
                        assert(res[i] == slots[i]);
                    }
                }
                lemma_slots_size_update(slots, 0, from, Option::Some(neww));
            } else {
            }
        },
        Option::None => {},
    }
}

/// The click walk over a well-formed slot list keeps the slot count,
/// keeps well-formedness, and never grows the total weight.
pub proof fn lemma_click_props<C: Callback>(
    fuel: nat,
    slots: Seq<Option<WidgetModel<C>>>,
    c: int,
    r: int,
    top: bool,
    from: int,
)
    requires
        slots_wf(slots),
    ensures
        click_from(fuel, slots, c, r, top, from).0.len() == slots.len(),
        slots_wf(click_from(fuel, slots, c, r, top, from).0),
        slots_size(click_from(fuel, slots, c, r, top, from).0, 0) <= slots_size(slots, 0),
    decreases fuel, slots.len() - from, 2int,
{
    if from < 0 || from >= slots.len() {
    } else {
        lemma_click_step_props(fuel, slots, c, r, top, from);
        lemma_click_unfold(fuel, slots, c, r, top, from);
        let step = click_step(fuel, slots, c, r, top, from);
        lemma_click_props(fuel, step.0, c, r, top, from + 1);
    }
}

} // verus!


use crate::backend::console::Console;
use crate::widgets::events::{Event, MouseButton};

verus! {

/// Resolve `rid` over the slots from `from` on, depth-first, and apply
/// `cb` to the first widget whose identifier matches; report whether a
/// match was found. The shared engine behind callback triggering in both
/// container kinds.
pub(crate) fn apply_first_exec<C: Callback>(
    widgets: &mut Vec<Option<Widget<C>>>,
    cb: &C,
    rid: usize,
    from: usize,
) -> (found: bool)
    requires
        slots_wf(slot_models(old(widgets)@)),
    ensures
        final(widgets)@.len() == old(widgets)@.len(),
        slot_models(final(widgets)@) == applied_slots(
            slot_models(old(widgets)@),
            rid,
            *cb,
            from as int,
        ).0,
        found == applied_slots(slot_models(old(widgets)@), rid, *cb, from as int).1,
    decreases slots_size(slot_models(old(widgets)@), from as int), old(widgets)@.len() - from,
{
    let ghost m0 = slot_models(old(widgets)@);
    let n = widgets.len();
    if from >= n {
        return false;
    }
    let mut slot: Option<Widget<C>> = Option::None;
    core::mem::swap(&mut widgets[from], &mut slot);
    match slot {
        Option::None => {
            proof {
                assert(widgets@ =~= old(widgets)@);
                assert(slot_models(widgets@) =~= m0);
            }
            let f = apply_first_exec(widgets, cb, rid, from + 1);
            f
        },
        Option::Some(w) => {
            proof {
                assert(m0[from as int] == Option::Some(w@));
                assert(slot_wf(m0[from as int]));
            }
            let is_empty_w = match &w {
                Widget::Empty => true,
                _ => false,
            };
            if is_empty_w {
                proof {
                    assert(false);
                }
                return false;
            }
            let idm = w.id();
            let matched = match idm {
                Option::Some(v) => v == rid,
                Option::None => false,
            };
            if matched {
                let neww = cb.apply(w);
                let ghost nv = neww;
                let mut back: Option<Widget<C>> = Option::Some(neww);
                core::mem::swap(&mut widgets[from], &mut back);
                proof {
                    assert(widgets@ =~= old(widgets)@.update(from as int, Option::Some(nv)));
                    assert(applied_widget(w@, rid, *cb) == (cb.spec_apply(w@), true));
                    assert(slot_models(widgets@) =~= applied_slots(m0, rid, *cb, from as int).0);
                }
                return true;
            }
            let mut found_in_child = false;
            let ghost rw = applied_widget(w@, rid, *cb);
            let ghost wv = w@;
            match w {
                Widget::Vbox(mut vb) => {
                    proof {
                        assert(wv == WidgetModel::Vbox {
                            id: vb.id,
                            slots: slot_models(vb.widgets@),
                            wrap: vb.wrap,
                            shape: vb.shape,
                        });
                        assert(wv.size() == 1 + slots_size(slot_models(vb.widgets@), 0));
                        assert(slots_size(m0, from as int) == slot_size(m0[from as int])
                            + slots_size(m0, from as int + 1));
                        assert(wv.wf());
                    }
                    found_in_child = apply_first_exec(&mut vb.widgets, cb, rid, 0);
                    let ghost vbv = vb;
                    let mut back: Option<Widget<C>> = Option::Some(Widget::Vbox(vb));
                    core::mem::swap(&mut widgets[from], &mut back);
                    proof {
                        assert(widgets@ =~= old(widgets)@.update(
                            from as int,
                            Option::Some(Widget::Vbox(vbv)),
                        ));
                    }
                },
                Widget::Hbox(mut hb) => {
                    proof {
                        assert(wv == WidgetModel::Hbox {
                            id: hb.id,
                            slots: slot_models(hb.widgets@),
                            wrap: hb.wrap,
                            shape: hb.shape,
                        });
                        assert(wv.size() == 1 + slots_size(slot_models(hb.widgets@), 0));
                        assert(slots_size(m0, from as int) == slot_size(m0[from as int])
                            + slots_size(m0, from as int + 1));
                        assert(wv.wf());
                    }
                    found_in_child = apply_first_exec(&mut hb.widgets, cb, rid, 0);
                    let ghost hbv = hb;
                    let mut back: Option<Widget<C>> = Option::Some(Widget::Hbox(hb));
                    core::mem::swap(&mut widgets[from], &mut back);
                    proof {
                        assert(widgets@ =~= old(widgets)@.update(
                            from as int,
                            Option::Some(Widget::Hbox(hbv)),
                        ));
                    }
                },
                wo => {
                    let ghost wov = wo;
                    let mut back: Option<Widget<C>> = Option::Some(wo);
                    core::mem::swap(&mut widgets[from], &mut back);
                    proof {
                        assert(widgets@ =~= old(widgets)@.update(
                            from as int,
                            Option::Some(wov),
                        ));
                        assert(slot_models(widgets@) =~= m0);
                    }
                },
            }
            proof {
                assert(rw.1 == found_in_child);
                if found_in_child {
                    assert(slot_models(widgets@) =~= m0.update(from as int, Option::Some(rw.0)));
                } else {
                    lemma_applied_widget_props(w@, rid, *cb);
                    assert(rw.0 == w@);
                    assert(slot_models(widgets@) =~= m0);
                }
            }
            if found_in_child {
                return true;
            }
            proof {
                crate::widgets::widget::lemma_slots_size_agree(slot_models(widgets@), m0, 0);
            }
            let f2 = apply_first_exec(widgets, cb, rid, from + 1);
            f2
        },
    }
}

} // verus!

verus! {

/// Suffix weights shrink as the suffix does.
pub proof fn lemma_slots_size_mono<C>(slots: Seq<Option<WidgetModel<C>>>, a: int, b: int)
    requires
        0 <= a <= b,
    ensures
        slots_size(slots, a) >= slots_size(slots, b),
    decreases b - a,
{
    if a < b {
        lemma_slots_size_mono(slots, a + 1, b);
    }
}

/// Walk the slots from index `from` on against a left click at
/// (`column`, `row`): trigger every hit button's callback over the list
/// it lives in, walk into containers, and queue a screen clear (top
/// level) or flush (nested) for every button hit. The shared engine
/// behind dispatching clicks in both container kinds.
#[verifier::rlimit(100)]
pub(crate) fn click_slots_exec<C: Callback>(
    widgets: &mut Vec<Option<Widget<C>>>,
    column: u16,
    row: u16,
    top: bool,
    console: &mut Console,
    from: usize,
)
    requires
        slots_wf(slot_models(old(widgets)@)),
    ensures
        final(widgets)@.len() == old(widgets)@.len(),
        slots_wf(slot_models(final(widgets)@)),
        slots_size(slot_models(final(widgets)@), 0) <= slots_size(slot_models(old(widgets)@), 0),
        forall|f: nat|
            f >= slots_size(slot_models(old(widgets)@), 0) ==> slot_models(final(widgets)@)
                == click_from(
                f,
                slot_models(old(widgets)@),
                column as int,
                row as int,
                top,
                from as int,
            ).0 && final(console)@ == old(console)@ + click_from(
                f,
                slot_models(old(widgets)@),
                column as int,
                row as int,
                top,
                from as int,
            ).1,
    decreases slots_size(slot_models(old(widgets)@), 0), old(widgets)@.len() - from,
{
    let ghost m0 = slot_models(old(widgets)@);
    let ghost c: int = column as int;
    let ghost r: int = row as int;
    let n = widgets.len();
    if from >= n {
        proof {
            assert(slot_models(widgets@) =~= m0);
            assert forall|f: nat| f >= slots_size(m0, 0) implies slot_models(widgets@)
                == click_from(f, m0, c, r, top, from as int).0 && console@ == old(console)@
                + click_from(f, m0, c, r, top, from as int).1 by {
                assert_seqs_equal!(console@ == old(console)@ + click_from(f, m0, c, r, top, from as int).1);
            }
        }
        return;
    }
    let mut slot: Option<Widget<C>> = Option::None;
    core::mem::swap(&mut widgets[from], &mut slot);
    match slot {
        Option::None => {
            proof {
                assert(widgets@ =~= old(widgets)@);
                assert(slot_models(widgets@) =~= m0);
            }
            let ghost cmid = console@;
            click_slots_exec(widgets, column, row, top, console, from + 1);
            proof {
                assert forall|f: nat| f >= slots_size(m0, 0) implies slot_models(widgets@)
                    == click_from(f, m0, c, r, top, from as int).0 && console@ == old(console)@
                    + click_from(f, m0, c, r, top, from as int).1 by {
                    let rest = click_from(f, m0, c, r, top, from as int + 1);
                    assert(slot_models(widgets@) == rest.0);
                    assert_seqs_equal!(console@ == old(console)@ + click_from(f, m0, c, r, top, from as int).1);
                }
            }
        },
        Option::Some(w) => {
            proof {
                assert(m0[from as int] == Option::Some(w@));
                assert(slot_wf(m0[from as int]));
            }
            let ghost wv = w@;
            match w {
                Widget::Button(b) => {
                    let shape = b.shape;
                    let hit: bool = shape.x as i64 <= column as i64 && (if top {
                        shape.x as i64 + shape.w as i64 >= column as i64
                    } else {
                        shape.x as i64 + shape.w as i64 - 1 >= column as i64
                    }) && shape.y as i64 == row as i64;
                    proof {
                        assert(hit == spec_hit(wv.spec_shape(), c, r, top));
                    }
                    if hit {
                        let ghost hole = m0.update(from as int, Option::None);
                        proof {
                            assert(slot_models(widgets@) =~= hole);
                            assert forall|i: int| 0 <= i < hole.len() implies slot_wf(
                                #[trigger] hole[i],
                            ) by {
                                if i != from as int {
                                    assert(hole[i] == m0[i]);
                                }
                            }
                        }
                        match &b.callback {
                            Option::Some(cbf) => {
                                let rid_v: usize = match b.rid {
                                    Option::Some(v) => v,
                                    Option::None => {
                                        proof {
                                            assert(false);
                                        }
                                        0
                                    },
                                };
                                let _found = apply_first_exec(widgets, cbf, rid_v, 0);
                                proof {
                                    assert(slot_models(widgets@) == trigger_model(hole, wv));
                                }
                            },
                            Option::None => {
                                proof {
                                    assert(slot_models(widgets@) =~= trigger_model(hole, wv));
                                }
                            },
                        }
                        let ghost after = slot_models(widgets@);
                        let mut back: Option<Widget<C>> = Option::Some(Widget::Button(b));
                        core::mem::swap(&mut widgets[from], &mut back);
                        if top {
                            console.clear();
                        } else {
                            console.flush();
                        }
                        let ghost step0 = after.update(from as int, Option::Some(wv));
                        let ghost stepcmds: Seq<CommandModel> = seq![
                            if top {
                                CommandModel::Clear
                            } else {
                                CommandModel::Flush
                            },
                        ];
                        proof {
                            assert(slot_models(widgets@) =~= step0);
                            assert_seqs_equal!(console@ == old(console)@ + stepcmds);
                            lemma_click_step_props(slots_size(m0, 0) + 1, m0, c, r, top, from as int);
                            assert(step0 == click_step(
                                slots_size(m0, 0) + 1,
                                m0,
                                c,
                                r,
                                top,
                                from as int,
                            ).0);
                            assert(slots_wf(step0));
                            assert(slots_size(step0, 0) <= slots_size(m0, 0));
                        }
                        let ghost cmid = console@;
                        click_slots_exec(widgets, column, row, top, console, from + 1);
                        proof {
                            assert forall|f: nat| f >= slots_size(m0, 0) implies slot_models(
                                widgets@,
                            ) == click_from(f, m0, c, r, top, from as int).0 && console@ == old(
                                console,
                            )@ + click_from(f, m0, c, r, top, from as int).1 by {
                                assert(click_step(f, m0, c, r, top, from as int) == (
                                    step0,
                                    stepcmds,
                                ));
                                lemma_click_unfold(f, m0, c, r, top, from as int);
                                let rest = click_from(f, step0, c, r, top, from as int + 1);
                                assert(slot_models(widgets@) == rest.0);
                                assert(console@ == cmid + rest.1);
                                assert_seqs_equal!(console@ == old(console)@ + click_from(f, m0, c, r, top, from as int).1);
                            }
                        }
                    } else {
                        let mut back: Option<Widget<C>> = Option::Some(Widget::Button(b));
                        core::mem::swap(&mut widgets[from], &mut back);
                        proof {
                            assert(widgets@ =~= old(widgets)@);
                            assert(slot_models(widgets@) =~= m0);
                        }
                        let ghost cmid = console@;
                        click_slots_exec(widgets, column, row, top, console, from + 1);
                        proof {
                            assert forall|f: nat| f >= slots_size(m0, 0) implies slot_models(
                                widgets@,
                            ) == click_from(f, m0, c, r, top, from as int).0 && console@ == old(
                                console,
                            )@ + click_from(f, m0, c, r, top, from as int).1 by {
                                assert(click_step(f, m0, c, r, top, from as int) == (
                                    m0,
                                    Seq::<CommandModel>::empty(),
                                ));
                                lemma_click_unfold(f, m0, c, r, top, from as int);
                                let rest = click_from(f, m0, c, r, top, from as int + 1);
                                assert(slot_models(widgets@) == rest.0);
                                assert_seqs_equal!(console@ == old(console)@ + click_from(f, m0, c, r, top, from as int).1);
                            }
                        }
                    }
                },
                Widget::Vbox(mut vb) => {
                    let ghost inner0 = slot_models(vb.widgets@);
                    proof {
                        assert(wv == WidgetModel::Vbox {
                            id: vb.id,
                            slots: inner0,
                            wrap: vb.wrap,
                            shape: vb.shape,
                        });
                        assert(wv.size() == 1 + slots_size(inner0, 0));
                        assert(slots_size(m0, from as int) == slot_size(m0[from as int])
                            + slots_size(m0, from as int + 1));
                        lemma_slots_size_mono(m0, 0, from as int);
                        assert(wv.wf());
                    }
                    click_slots_exec(&mut vb.widgets, column, row, false, console, 0);
                    let ghost innerres = slot_models(vb.widgets@);
                    let ghost vbv = vb;
                    let mut back: Option<Widget<C>> = Option::Some(Widget::Vbox(vb));
                    core::mem::swap(&mut widgets[from], &mut back);
                    let ghost step0 = m0.update(
                        from as int,
                        Option::Some(with_slots(wv, innerres)),
                    );
                    proof {
                        assert(slot_models(widgets@) =~= step0);
                        assert forall|i: int| 0 <= i < step0.len() implies slot_wf(
                            #[trigger] step0[i],
                        ) by {
                            if i != from as int {
                                assert(step0[i] == m0[i]);
                            }
                        }
                        lemma_slots_size_update(
                            m0,
                            0,
                            from as int,
                            Option::Some(with_slots(wv, innerres)),
                        );
                    }
                    let ghost cmid = console@;
                    click_slots_exec(widgets, column, row, top, console, from + 1);
                    proof {
                        assert forall|f: nat| f >= slots_size(m0, 0) implies slot_models(widgets@)
                            == click_from(f, m0, c, r, top, from as int).0 && console@ == old(
                            console,
                        )@ + click_from(f, m0, c, r, top, from as int).1 by {
                            assert(f >= 1 + slots_size(inner0, 0));
                            let fi = (f - 1) as nat;
                            assert(fi >= slots_size(inner0, 0));
                            let inner = click_from(fi, inner0, c, r, false, 0);
                            assert(innerres == inner.0);
                            assert(click_step(f, m0, c, r, top, from as int) == (
                                step0,
                                inner.1,
                            ));
                            lemma_click_unfold(f, m0, c, r, top, from as int);
                            let rest = click_from(f, step0, c, r, top, from as int + 1);
                            assert(slot_models(widgets@) == rest.0);
                            assert(console@ == cmid + rest.1);
                            assert_seqs_equal!(console@ == old(console)@ + click_from(f, m0, c, r, top, from as int).1);
                        }
                    }
                },
                Widget::Hbox(mut hb) => {
                    let ghost inner0 = slot_models(hb.widgets@);
                    proof {
                        assert(wv == WidgetModel::Hbox {
                            id: hb.id,
                            slots: inner0,
                            wrap: hb.wrap,
                            shape: hb.shape,
                        });
                        assert(wv.size() == 1 + slots_size(inner0, 0));
                        assert(slots_size(m0, from as int) == slot_size(m0[from as int])
                            + slots_size(m0, from as int + 1));
                        lemma_slots_size_mono(m0, 0, from as int);
                        assert(wv.wf());
                    }
                    click_slots_exec(&mut hb.widgets, column, row, false, console, 0);
                    let ghost innerres = slot_models(hb.widgets@);
                    let ghost hbv = hb;
                    let mut back: Option<Widget<C>> = Option::Some(Widget::Hbox(hb));
                    core::mem::swap(&mut widgets[from], &mut back);
                    let ghost step0 = m0.update(
                        from as int,
                        Option::Some(with_slots(wv, innerres)),
                    );
                    proof {
                        assert(slot_models(widgets@) =~= step0);
                        assert forall|i: int| 0 <= i < step0.len() implies slot_wf(
                            #[trigger] step0[i],
                        ) by {
                            if i != from as int {
                                assert(step0[i] == m0[i]);
                            }
                        }
                        lemma_slots_size_update(
                            m0,
                            0,
                            from as int,
                            Option::Some(with_slots(wv, innerres)),
                        );
                    }
                    let ghost cmid = console@;
                    click_slots_exec(widgets, column, row, top, console, from + 1);
                    proof {
                        assert forall|f: nat| f >= slots_size(m0, 0) implies slot_models(widgets@)
                            == click_from(f, m0, c, r, top, from as int).0 && console@ == old(
                            console,
                        )@ + click_from(f, m0, c, r, top, from as int).1 by {
                            assert(f >= 1 + slots_size(inner0, 0));
                            let fi = (f - 1) as nat;
                            assert(fi >= slots_size(inner0, 0));
                            let inner = click_from(fi, inner0, c, r, false, 0);
                            assert(innerres == inner.0);
                            assert(click_step(f, m0, c, r, top, from as int) == (
                                step0,
                                inner.1,
                            ));
                            lemma_click_unfold(f, m0, c, r, top, from as int);
                            let rest = click_from(f, step0, c, r, top, from as int + 1);
                            assert(slot_models(widgets@) == rest.0);
                            assert(console@ == cmid + rest.1);
                            assert_seqs_equal!(console@ == old(console)@ + click_from(f, m0, c, r, top, from as int).1);
                        }
                    }
                },
                wo => {
                    let ghost wov = wo;
                    let mut back: Option<Widget<C>> = Option::Some(wo);
                    core::mem::swap(&mut widgets[from], &mut back);
                    proof {
                        assert(widgets@ =~= old(widgets)@.update(
                            from as int,
                            Option::Some(wov),
                        ));
                        assert(widgets@ =~= old(widgets)@);
                        assert(slot_models(widgets@) =~= m0);
                    }
                    let ghost cmid = console@;
                    click_slots_exec(widgets, column, row, top, console, from + 1);
                    proof {
                        assert forall|f: nat| f >= slots_size(m0, 0) implies slot_models(widgets@)
                            == click_from(f, m0, c, r, top, from as int).0 && console@ == old(
                            console,
                        )@ + click_from(f, m0, c, r, top, from as int).1 by {
                            assert(click_step(f, m0, c, r, top, from as int) == (
                                m0,
                                Seq::<CommandModel>::empty(),
                            ));
                            lemma_click_unfold(f, m0, c, r, top, from as int);
                            let rest = click_from(f, m0, c, r, top, from as int + 1);
                            assert(slot_models(widgets@) == rest.0);
                            assert_seqs_equal!(console@ == old(console)@ + click_from(f, m0, c, r, top, from as int).1);
                        }
                    }
                },
            }
        },
    }
}

} // verus!

verus! {

/// What dispatching one event does to a tree's top-level slots and to the
/// console queue. A resize only forces a screen clear; a left click runs
/// the click walk over the whole list; the cancel chord clears the screen
/// on its way out; everything else is ignored.
pub open spec fn handle_model<C: Callback>(
    slots: Seq<Option<WidgetModel<C>>>,
    event: Event,
) -> (Seq<Option<WidgetModel<C>>>, Seq<CommandModel>) {
    match event {
        Event::Resize { .. } => (slots, seq![CommandModel::Clear]),
        Event::MouseDown { button, column, row } => match button {
            MouseButton::Left => click_from(
                slots_size(slots, 0),
                slots,
                column as int,
                row as int,
                true,
                0,
            ),
            _ => (slots, Seq::empty()),
        },
        Event::KeyPress { .. } => if event.is_cancel() {
            (slots, seq![CommandModel::Clear])
        } else {
            (slots, Seq::empty())
        },
        Event::Other => (slots, Seq::empty()),
    }
}

} // verus!
