use vstd::prelude::*;
use vstd::arithmetic::div_mod::lemma_fundamental_div_mod;

use crate::backend::console::CommandModel;
use crate::widgets::button::Callback;
use crate::widgets::dispatch::{
    applied_slots, click_from, lemma_applied_slots_len, lemma_applied_slots_props, slots_have_rid,
    spec_hit, trigger_model,
};
use crate::widgets::utility::Rect;
use crate::widgets::widget::{child_rect, slots_wf, WidgetModel};

verus! {

/// Law: a container with `n` children splits its extent `e` along its
/// axis into `n` spans of `e / n` cells each, so the spans sum to `e`
/// within integer-division rounding: the total never exceeds `e` and
/// falls short of it by fewer than `n` cells.
pub proof fn lemma_split_span_sum(rect: Rect, n: u32, idx: int, pad: int, vertical: bool)
    requires
        1 <= n,
        0 <= idx < n,
    ensures
        vertical ==> child_rect(rect, n as int, idx, pad, vertical).h == rect.h as int / n as int,
        !vertical ==> child_rect(rect, n as int, idx, pad, vertical).w == rect.w as int / n as int,
        ({
            let e: int = if vertical {
                rect.h as int
            } else {
                rect.w as int
            };
            (n as int) * (e / (n as int)) <= e && e < (n as int) * (e / (n as int)) + (n as int)
        }),
{
    let e: int = if vertical {
        rect.h as int
    } else {
        rect.w as int
    };
    let ni = n as int;
    lemma_fundamental_div_mod(e, ni);
    assert(e == ni * (e / ni) + e % ni);
    assert(0 <= e % ni < ni);
    vstd::arithmetic::div_mod::lemma_div_basics_4(e, ni);
    vstd::arithmetic::div_mod::lemma_div_basics_5(e, ni);
}

/// Law: a click whose related identifier matches no widget anywhere in
/// the list, at any level, leaves every widget's state unchanged: the
/// resolution is a silent no-op.
pub proof fn lemma_no_match_no_mutation<C: Callback>(
    slots: Seq<Option<WidgetModel<C>>>,
    rid: usize,
    cb: C,
)
    requires
        slots_wf(slots),
        !slots_have_rid(slots, rid, 0),
    ensures
        applied_slots(slots, rid, cb, 0).0 == slots,
{
    lemma_applied_slots_props(slots, rid, cb, 0);
}

/// A slot the click walk passes over without effect: empty, or holding a
/// widget that is neither a container nor a button whose cached
/// rectangle the click lands on.
pub open spec fn slot_inert<C>(s: Option<WidgetModel<C>>, c: int, r: int, top: bool) -> bool {
    match s {
        Option::Some(m) => !m.is_container() && !(m is Button && spec_hit(
            m.spec_shape(),
            c,
            r,
            top,
        )),
        Option::None => true,
    }
}

/// The walk does nothing over a stretch of inert slots.
proof fn lemma_click_inert_stretch<C: Callback>(
    f: nat,
    slots: Seq<Option<WidgetModel<C>>>,
    c: int,
    r: int,
    top: bool,
    from: int,
    to: int,
)
    requires
        0 <= from <= to <= slots.len(),
        forall|j: int| from <= j < to ==> slot_inert(#[trigger] slots[j], c, r, top),
    ensures
        click_from(f, slots, c, r, top, from).0 == click_from(f, slots, c, r, top, to).0,
        click_from(f, slots, c, r, top, from).1 == click_from(f, slots, c, r, top, to).1,
    decreases to - from,
{
    if from < to {
        lemma_click_inert_stretch(f, slots, c, r, top, from + 1, to);
        assert(click_from(f, slots, c, r, top, from).1 =~= click_from(
            f,
            slots,
            c,
            r,
            top,
            from + 1,
        ).1);
    }
}

/// What one hit-button step of the walk makes of the slots: the button
/// is taken out, its related identifier is resolved over the remaining
/// list with its callback applied to the first match, and the button is
/// put back unchanged.
pub open spec fn hit_step<C: Callback>(slots: Seq<Option<WidgetModel<C>>>, i: int) -> Seq<
    Option<WidgetModel<C>>,
> {
    match slots[i] {
        Option::Some(m) => trigger_model(slots.update(i, Option::None), m).update(
            i,
            Option::Some(m),
        ),
        Option::None => slots,
    }
}

/// Law: a click that lands exactly on one top-level button's cached
/// rectangle row, with the column within `[x, x + w]`, triggers that
/// button's callback exactly once for the click event: the whole
/// dispatch is a single trigger step on that button followed by a single
/// screen clear, provided every other slot stays out of the walk's way
/// before and after the trigger.
pub proof fn lemma_single_hit_triggers_once<C: Callback>(
    f: nat,
    slots: Seq<Option<WidgetModel<C>>>,
    c: int,
    r: int,
    i: int,
)
    requires
        0 <= i < slots.len(),
        (slots[i] matches Option::Some(m) && m is Button && spec_hit(m.spec_shape(), c, r, true)),
        forall|j: int|
            0 <= j < slots.len() && j != i ==> slot_inert(#[trigger] slots[j], c, r, true),
        forall|j: int|
            0 <= j < slots.len() && j != i ==> slot_inert(#[trigger] hit_step(slots, i)[j], c, r, true),
    ensures
        click_from(f, slots, c, r, true, 0).0 == hit_step(slots, i),
        click_from(f, slots, c, r, true, 0).1 == seq![CommandModel::Clear],
{
    let stepped = hit_step(slots, i);
    let m = slots[i]->Some_0;
    match m {
        WidgetModel::Button { rid, callback, .. } => match callback {
            Option::Some(cb) => match rid {
                Option::Some(rv) => {
                    lemma_applied_slots_len(slots.update(i, Option::None), rv, cb, 0);
                },
                Option::None => {},
            },
            Option::None => {},
        },
        _ => {},
    }
    assert(stepped.len() == slots.len());
    lemma_click_inert_stretch(f, slots, c, r, true, 0, i);
    assert(click_from(f, slots, c, r, true, i).0 == click_from(f, stepped, c, r, true, i + 1).0);
    lemma_click_inert_stretch(f, stepped, c, r, true, i + 1, stepped.len() as int);
    assert(click_from(f, stepped, c, r, true, stepped.len() as int).0 == stepped);
    assert(click_from(f, slots, c, r, true, 0).0 == stepped);
    assert(click_from(f, slots, c, r, true, i).1 =~= seq![CommandModel::Clear] + click_from(
        f,
        stepped,
        c,
        r,
        true,
        i + 1,
    ).1);
    assert(click_from(f, slots, c, r, true, 0).1 =~= seq![CommandModel::Clear]);
}

} // verus!
