use vstd::prelude::*;
use vstd::assert_seqs_equal;

use crate::backend::console::{CommandModel, Console};
use crate::widgets::button::Button;
use crate::widgets::hbox::Hbox;
use crate::widgets::lable::Lable;
use crate::widgets::utility::{button_cmds, lable_cmds, Rect, MAX_SLOTS, MAX_TEXT};
use crate::widgets::vbox::Vbox;

verus! {

/// One widget of the tree: a vertical or horizontal container, a leaf
/// control, or the tombstone left in a slot whose widget has been taken
/// out for mutation. The tombstone is never user-built and never rendered.
pub enum Widget<C> {
    Vbox(Vbox<C>),
    Hbox(Hbox<C>),
    Button(Button<C>),
    Lable(Lable),
    Empty,
}

/// The mathematical image of a widget: containers carry their child slots
/// as a sequence, text is a character sequence. All contracts about trees
/// speak of these.
#[verifier::ext_equal]
pub enum WidgetModel<C> {
    Vbox { id: Option<usize>, slots: Seq<Option<WidgetModel<C>>>, wrap: bool, shape: Rect },
    Hbox { id: Option<usize>, slots: Seq<Option<WidgetModel<C>>>, wrap: bool, shape: Rect },
    Button {
        id: Option<usize>,
        text: Seq<char>,
        alignment: crate::widgets::utility::Alignment,
        wrap: bool,
        rid: Option<usize>,
        callback: Option<C>,
        shape: Rect,
    },
    Lable {
        id: Option<usize>,
        text: Seq<char>,
        alignment: crate::widgets::utility::Alignment,
        wrap: bool,
        shape: Rect,
    },
    Empty,
}

/// The models of a sequence of widget slots, slot by slot.
pub open spec fn slot_models<C>(slots: Seq<Option<Widget<C>>>) -> Seq<Option<WidgetModel<C>>>
    decreases slots,
{
    Seq::new(
        slots.len(),
        |i: int|
            if 0 <= i < slots.len() {
                match slots[i] {
                    Option::Some(w) => Option::Some(w.model()),
                    Option::None => Option::None,
                }
            } else {
                Option::None
            },
    )
}

impl<C> Widget<C> {
    /// The mathematical image of this widget.
    pub open spec fn model(self) -> WidgetModel<C>
        decreases self,
    {
        match self {
            Widget::Vbox(vb) => WidgetModel::Vbox {
                id: vb.id,
                slots: slot_models(vb.widgets@),
                wrap: vb.wrap,
                shape: vb.shape,
            },
            Widget::Hbox(hb) => WidgetModel::Hbox {
                id: hb.id,
                slots: slot_models(hb.widgets@),
                wrap: hb.wrap,
                shape: hb.shape,
            },
            Widget::Button(b) => WidgetModel::Button {
                id: b.id,
                text: b.text@,
                alignment: b.alignment,
                wrap: b.wrap,
                rid: b.rid,
                callback: b.callback,
                shape: b.shape,
            },
            Widget::Lable(l) => WidgetModel::Lable {
                id: l.id,
                text: l.text@,
                alignment: l.alignment,
                wrap: l.wrap,
                shape: l.shape,
            },
            Widget::Empty => WidgetModel::Empty,
        }
    }
}

impl<C> View for Widget<C> {
    type V = WidgetModel<C>;

    open spec fn view(&self) -> WidgetModel<C> {
        (*self).model()
    }
}

impl<C> WidgetModel<C> {
    /// Whether this widget is a container.
    pub open spec fn is_container(self) -> bool {
        self is Vbox || self is Hbox
    }

    /// The widget's own identifier, the target name for related-identifier
    /// lookups. The tombstone has none.
    pub open spec fn spec_id(self) -> Option<usize> {
        match self {
            WidgetModel::Vbox { id, .. } => id,
            WidgetModel::Hbox { id, .. } => id,
            WidgetModel::Button { id, .. } => id,
            WidgetModel::Lable { id, .. } => id,
            WidgetModel::Empty => None,
        }
    }

    /// The cached last-rendered rectangle.
    pub open spec fn spec_shape(self) -> Rect {
        match self {
            WidgetModel::Vbox { shape, .. } => shape,
            WidgetModel::Hbox { shape, .. } => shape,
            WidgetModel::Button { shape, .. } => shape,
            WidgetModel::Lable { shape, .. } => shape,
            WidgetModel::Empty => Rect { x: 0, y: 0, w: 0, h: 0 },
        }
    }

    /// The child slots of a container; empty for a leaf.
    pub open spec fn spec_slots(self) -> Seq<Option<WidgetModel<C>>> {
        match self {
            WidgetModel::Vbox { slots, .. } => slots,
            WidgetModel::Hbox { slots, .. } => slots,
            _ => Seq::empty(),
        }
    }

    /// Number of widgets in this subtree, the tombstone and empty slots
    /// counting for one and zero.
    pub open spec fn size(self) -> nat
        decreases self, 0int,
    {
        match self {
            WidgetModel::Vbox { slots, .. } => 1 + slots_size(slots, 0),
            WidgetModel::Hbox { slots, .. } => 1 + slots_size(slots, 0),
            _ => 1,
        }
    }

    /// Structural sanity: containers are not oversized, text is not
    /// oversized, and a button that carries a callback names the target it
    /// is related to. A filled slot never holds the tombstone.
    pub open spec fn wf(self) -> bool
        decreases self, 0int,
    {
        match self {
            WidgetModel::Vbox { slots, .. } => slots.len() <= MAX_SLOTS && slots_wf(slots),
            WidgetModel::Hbox { slots, .. } => slots.len() <= MAX_SLOTS && slots_wf(slots),
            WidgetModel::Button { text, rid, callback, .. } => text.len() <= MAX_TEXT && (
            callback is Some ==> rid is Some),
            WidgetModel::Lable { text, .. } => text.len() <= MAX_TEXT,
            WidgetModel::Empty => true,
        }
    }

    /// Every slot of every container in this subtree holds a concrete
    /// widget: nothing has been taken out, no tombstone is present.
    /// Rendering demands this; the tombstone itself is not renderable.
    pub open spec fn full(self) -> bool
        decreases self, 0int,
    {
        match self {
            WidgetModel::Vbox { slots, .. } => slots_full(slots),
            WidgetModel::Hbox { slots, .. } => slots_full(slots),
            WidgetModel::Empty => false,
            _ => true,
        }
    }

    /// Layout arithmetic stays inside machine integers when this subtree is
    /// laid out inside `rect`: every child rectangle's origin fits the
    /// coordinate type, recursively.
    pub open spec fn fits(self, rect: Rect) -> bool
        decreases self, 0int,
    {
        match self {
            WidgetModel::Vbox { slots, .. } => slots_fit(slots, rect, true),
            WidgetModel::Hbox { slots, .. } => slots_fit(slots, rect, false),
            _ => true,
        }
    }

    /// The widget as it stands after rendering into `rect`, paired with
    /// the draw commands rendering queues, in order.
    ///
    /// A container splits `rect` among its children and renders each into
    /// its child rectangle; its own cached shape is left alone. A wrapped
    /// leaf overwrites its cached shape with `rect`.
    pub open spec fn render_model(self, rect: Rect) -> (WidgetModel<C>, Seq<CommandModel>)
        decreases self, 0int,
    {
        match self {
            WidgetModel::Vbox { id, slots, wrap, shape } => (
                WidgetModel::Vbox {
                    id,
                    slots: rendered_from(slots, rect, true, 0),
                    wrap,
                    shape,
                },
                render_cmds_from(slots, rect, true, 0),
            ),
            WidgetModel::Hbox { id, slots, wrap, shape } => (
                WidgetModel::Hbox {
                    id,
                    slots: rendered_from(slots, rect, false, 0),
                    wrap,
                    shape,
                },
                render_cmds_from(slots, rect, false, 0),
            ),
            WidgetModel::Button { id, text, alignment, wrap, rid, callback, shape } => (
                WidgetModel::Button {
                    id,
                    text,
                    alignment,
                    wrap,
                    rid,
                    callback,
                    shape: if wrap {
                        rect
                    } else {
                        shape
                    },
                },
                button_cmds(alignment, text, wrap, rect),
            ),
            WidgetModel::Lable { id, text, alignment, wrap, shape } => (
                WidgetModel::Lable {
                    id,
                    text,
                    alignment,
                    wrap,
                    shape: if wrap {
                        rect
                    } else {
                        shape
                    },
                },
                lable_cmds(alignment, text, wrap, rect),
            ),
            WidgetModel::Empty => (self, Seq::empty()),
        }
    }
}

/// Padding of the child at `m`: containers sit flush, leaves are inset one
/// row.
pub open spec fn child_pad<C>(m: WidgetModel<C>) -> int {
    if m.is_container() {
        0
    } else {
        1
    }
}

/// The rectangle a container hands to its child at index `idx` out of `n`:
/// a vertical box divides its height evenly and places each child a fixed
/// three-row stride down; a horizontal box divides its width evenly.
/// Integer division truncates; children of a crowded container may overlap
/// or clip, which is accepted.
pub open spec fn child_rect(rect: Rect, n: int, idx: int, pad: int, vertical: bool) -> Rect {
    if vertical {
        Rect {
            x: rect.x,
            y: (rect.y + 3 * idx + pad) as i32,
            w: rect.w,
            h: (rect.h as int / n) as u32,
        }
    } else {
        Rect {
            x: (rect.x + (rect.w as int / n) * idx) as i32,
            y: (rect.y + pad) as i32,
            w: (rect.w as int / n) as u32,
            h: rect.h,
        }
    }
}

/// Whether the child rectangle's origin arithmetic stays inside `i32`.
pub open spec fn child_rect_ok(rect: Rect, n: int, idx: int, pad: int, vertical: bool) -> bool {
    if vertical {
        i32::MIN <= rect.y + 3 * idx + pad <= i32::MAX
    } else {
        i32::MIN <= rect.x + (rect.w as int / n) * idx <= i32::MAX && i32::MIN <= rect.y + pad
            <= i32::MAX
    }
}

/// Well-formedness of one slot: empty, or a concrete well-formed widget.
pub open spec fn slot_wf<C>(s: Option<WidgetModel<C>>) -> bool
    decreases s, 0int,
{
    match s {
        Option::Some(m) => !(m is Empty) && m.wf(),
        Option::None => true,
    }
}

/// Every slot is empty or holds a concrete well-formed widget.
pub open spec fn slots_wf<C>(slots: Seq<Option<WidgetModel<C>>>) -> bool
    decreases slots, 0int,
{
    forall|i: int| 0 <= i < slots.len() ==> slot_wf(#[trigger] slots[i])
}

/// Fullness of one slot: it holds a concrete widget whose subtree is full.
pub open spec fn slot_full<C>(s: Option<WidgetModel<C>>) -> bool
    decreases s, 0int,
{
    match s {
        Option::Some(m) => m.full(),
        Option::None => false,
    }
}

/// Every slot holds a concrete widget, recursively.
pub open spec fn slots_full<C>(slots: Seq<Option<WidgetModel<C>>>) -> bool
    decreases slots, 0int,
{
    forall|i: int| 0 <= i < slots.len() ==> slot_full(#[trigger] slots[i])
}

/// Layout arithmetic for the slot at index `i` of `n` stays in bounds.
pub open spec fn slot_fit<C>(
    s: Option<WidgetModel<C>>,
    rect: Rect,
    n: int,
    i: int,
    vertical: bool,
) -> bool
    decreases s, 0int,
{
    match s {
        Option::Some(m) => child_rect_ok(rect, n, i, child_pad(m), vertical) && m.fits(
            child_rect(rect, n, i, child_pad(m), vertical),
        ),
        Option::None => true,
    }
}

/// Layout arithmetic for every slot stays in bounds.
pub open spec fn slots_fit<C>(slots: Seq<Option<WidgetModel<C>>>, rect: Rect, vertical: bool) -> bool
    decreases slots, 0int,
{
    forall|i: int|
        0 <= i < slots.len() ==> slot_fit(
            #[trigger] slots[i],
            rect,
            slots.len() as int,
            i,
            vertical,
        )
}

/// Everything rendering a slot suffix demands, slot by slot.
pub open spec fn slot_ok<C>(
    s: Option<WidgetModel<C>>,
    rect: Rect,
    n: int,
    i: int,
    vertical: bool,
) -> bool {
    slot_wf(s) && slot_full(s) && slot_fit(s, rect, n, i, vertical)
}

/// Everything rendering the slots from index `from` on demands.
pub open spec fn slots_ok_from<C>(
    slots: Seq<Option<WidgetModel<C>>>,
    rect: Rect,
    vertical: bool,
    from: int,
) -> bool {
    forall|j: int|
        from <= j < slots.len() ==> slot_ok(
            #[trigger] slots[j],
            rect,
            slots.len() as int,
            j,
            vertical,
        )
}

/// Total widget count over the slots from index `from` on.
pub open spec fn slots_size<C>(slots: Seq<Option<WidgetModel<C>>>, from: int) -> nat
    decreases slots, slots.len() - from,
{
    if from < 0 || from >= slots.len() {
        0
    } else {
        (match slots[from] {
            Option::Some(m) => m.size(),
            Option::None => 0,
        }) + slots_size(slots, from + 1)
    }
}

/// What rendering makes of the slot at index `i` of `n`: its widget
/// rendered into its child rectangle; an empty slot stays empty.
pub open spec fn rendered_slot<C>(
    s: Option<WidgetModel<C>>,
    rect: Rect,
    n: int,
    i: int,
    vertical: bool,
) -> Option<WidgetModel<C>>
    decreases s, 0int,
{
    match s {
        Option::Some(m) => Option::Some(
            m.render_model(child_rect(rect, n, i, child_pad(m), vertical)).0,
        ),
        Option::None => Option::None,
    }
}

/// The slots with those from index `from` on rendered into their child
/// rectangles; the slots before `from` are left as they are.
pub open spec fn rendered_from<C>(
    slots: Seq<Option<WidgetModel<C>>>,
    rect: Rect,
    vertical: bool,
    from: int,
) -> Seq<Option<WidgetModel<C>>>
    decreases slots, slots.len() - from,
{
    if from < 0 || from >= slots.len() {
        slots
    } else {
        rendered_from(slots, rect, vertical, from + 1).update(
            from,
            rendered_slot(slots[from], rect, slots.len() as int, from, vertical),
        )
    }
}

/// The draw commands queued when the slots from index `from` on are
/// rendered, in slot order.
pub open spec fn render_cmds_from<C>(
    slots: Seq<Option<WidgetModel<C>>>,
    rect: Rect,
    vertical: bool,
    from: int,
) -> Seq<CommandModel>
    decreases slots, slots.len() - from,
{
    if from < 0 || from >= slots.len() {
        Seq::empty()
    } else {
        (match slots[from] {
            Option::Some(m) => m.render_model(
                child_rect(rect, slots.len() as int, from, child_pad(m), vertical),
            ).1,
            Option::None => Seq::empty(),
        }) + render_cmds_from(slots, rect, vertical, from + 1)
    }
}

/// A widget's subtree holds at least the widget itself.
pub proof fn lemma_size_pos<C>(m: WidgetModel<C>)
    ensures
        m.size() >= 1,
{
    match m {
        WidgetModel::Vbox { .. } => {},
        WidgetModel::Hbox { .. } => {},
        WidgetModel::Button { .. } => {},
        WidgetModel::Lable { .. } => {},
        WidgetModel::Empty => {},
    }
}

/// Suffix sizes are equal on slot sequences that agree from `from` on.
pub proof fn lemma_slots_size_agree<C>(
    s1: Seq<Option<WidgetModel<C>>>,
    s2: Seq<Option<WidgetModel<C>>>,
    from: int,
)
    requires
        s1.len() == s2.len(),
        forall|j: int| from <= j < s1.len() ==> s1[j] == s2[j],
    ensures
        slots_size(s1, from) == slots_size(s2, from),
    decreases s1.len() - from,
{
    if from < 0 || from >= s1.len() {
    } else {
        lemma_slots_size_agree(s1, s2, from + 1);
    }
}

/// The suffix commands are equal on slot sequences that agree from `from`
/// on.
pub proof fn lemma_render_cmds_agree<C>(
    s1: Seq<Option<WidgetModel<C>>>,
    s2: Seq<Option<WidgetModel<C>>>,
    rect: Rect,
    vertical: bool,
    from: int,
)
    requires
        s1.len() == s2.len(),
        forall|j: int| from <= j < s1.len() ==> s1[j] == s2[j],
    ensures
        render_cmds_from(s1, rect, vertical, from) == render_cmds_from(s2, rect, vertical, from),
    decreases s1.len() - from,
{
    if from < 0 || from >= s1.len() {
    } else {
        lemma_render_cmds_agree(s1, s2, rect, vertical, from + 1);
    }
}

/// What rendering a slot suffix does, slot by slot: slots before `from`
/// stay, each slot from `from` on is rendered into its own child
/// rectangle, independently of the others.
pub proof fn lemma_rendered_from_pointwise<C>(
    slots: Seq<Option<WidgetModel<C>>>,
    rect: Rect,
    vertical: bool,
    from: int,
)
    requires
        0 <= from,
    ensures
        rendered_from(slots, rect, vertical, from).len() == slots.len(),
        forall|j: int|
            0 <= j < slots.len() && j < from ==> rendered_from(slots, rect, vertical, from)[j]
                == slots[j],
        forall|j: int|
            0 <= j < slots.len() && j >= from ==> rendered_from(slots, rect, vertical, from)[j]
                == rendered_slot(slots[j], rect, slots.len() as int, j, vertical),
    decreases slots.len() - from,
{
    if from < 0 || from >= slots.len() {
    } else {
        lemma_rendered_from_pointwise(slots, rect, vertical, from + 1);
        let rest = rendered_from(slots, rect, vertical, from + 1);
        let r = rendered_from(slots, rect, vertical, from);
        assert(r == rest.update(
            from,
            rendered_slot(slots[from], rect, slots.len() as int, from, vertical),
        ));
        assert forall|j: int|
            0 <= j < slots.len() && j >= from implies r[j] == rendered_slot(
            slots[j],
            rect,
            slots.len() as int,
            j,
            vertical,
        ) by {
            if j == from {
                assert(r[j] == rendered_slot(slots[from], rect, slots.len() as int, from, vertical));
            } else {
                assert(r[j] == rest[j]);
                assert(rest[j] == rendered_slot(slots[j], rect, slots.len() as int, j, vertical));
            }
        }
    }
}

impl<C> Widget<C> {
    /// Replace this widget with the tombstone and hand the widget out, so
    /// a callback can own and transform it while its slot stays behind.
    pub fn take(&mut self) -> (w: Widget<C>)
        ensures
            w == *old(self),
            *final(self) is Empty,
    {
        let mut t = Widget::Empty;
        core::mem::swap(self, &mut t);
        t
    }

    /// Whether this widget is a container.
    pub fn is_container(&self) -> (r: bool)
        ensures
            r == self@.is_container(),
    {
        match self {
            Widget::Vbox(_) => true,
            Widget::Hbox(_) => true,
            _ => false,
        }
    }

    /// The cached last-rendered rectangle. The tombstone has none: asking
    /// for it is a contract violation.
    pub fn shape(&self) -> (r: Rect)
        requires
            !(self@ is Empty),
        ensures
            r == self@.spec_shape(),
    {
        match self {
            Widget::Vbox(vb) => vb.shape,
            Widget::Hbox(hb) => hb.shape,
            Widget::Button(b) => b.shape,
            Widget::Lable(l) => l.shape,
            Widget::Empty => Rect::new(0, 0, 0, 0),
        }
    }

    /// The widget's own identifier. The tombstone has none: asking for it
    /// is a contract violation.
    pub fn id(&self) -> (r: Option<usize>)
        requires
            !(self@ is Empty),
        ensures
            r == self@.spec_id(),
    {
        match self {
            Widget::Vbox(vb) => vb.id,
            Widget::Hbox(hb) => hb.id,
            Widget::Button(b) => b.id,
            Widget::Lable(l) => l.id,
            Widget::Empty => None,
        }
    }

    /// Render this widget into `rect`: queue its draw commands on
    /// `console` and refresh cached shapes throughout the subtree.
    pub fn render(&mut self, rect: Rect, console: &mut Console)
        requires
            old(self)@.wf(),
            old(self)@.full(),
            old(self)@.fits(rect),
        ensures
            final(self)@ == old(self)@.render_model(rect).0,
            final(self)@.wf(),
            final(console)@ == old(console)@ + old(self)@.render_model(rect).1,
        decreases old(self)@.size(), 0int,
    {
        proof {
            lemma_render_preserves_wf(old(self)@, rect);
        }
        let w = self.take();
        match w {
            Widget::Vbox(mut vb) => {
                vb.render(rect, console);
                *self = Widget::Vbox(vb);
                proof {
                    assert(self@ =~= old(self)@.render_model(rect).0);
                }
            },
            Widget::Hbox(mut hb) => {
                hb.render(rect, console);
                *self = Widget::Hbox(hb);
                proof {
                    assert(self@ =~= old(self)@.render_model(rect).0);
                }
            },
            Widget::Button(mut b) => {
                b.render(rect, console);
                *self = Widget::Button(b);
                proof {
                    assert(self@ =~= old(self)@.render_model(rect).0);
                }
            },
            Widget::Lable(mut l) => {
                l.render(rect, console);
                *self = Widget::Lable(l);
                proof {
                    assert(self@ =~= old(self)@.render_model(rect).0);
                }
            },
            Widget::Empty => {
                proof {
                    assert(false);
                }
            },
        }
    }
}

/// Render the slots from index `from` on into `rect`, divided along the
/// container's orientation. The shared engine behind both container kinds.
pub(crate) fn render_slots<C>(
    widgets: &mut Vec<Option<Widget<C>>>,
    rect: Rect,
    vertical: bool,
    console: &mut Console,
    from: usize,
)
    requires
        old(widgets)@.len() <= MAX_SLOTS,
        slots_ok_from(slot_models(old(widgets)@), rect, vertical, from as int),
    ensures
        final(widgets)@.len() == old(widgets)@.len(),
        slot_models(final(widgets)@) == rendered_from(
            slot_models(old(widgets)@),
            rect,
            vertical,
            from as int,
        ),
        final(console)@ == old(console)@ + render_cmds_from(
            slot_models(old(widgets)@),
            rect,
            vertical,
            from as int,
        ),
    decreases slots_size(slot_models(old(widgets)@), from as int), 1int,
{
    let ghost m0 = slot_models(old(widgets)@);
    let n = widgets.len();
    if from >= n {
        proof {
            assert_seqs_equal!(console@ == old(console)@ + render_cmds_from(m0, rect, vertical, from as int));
        }
        return;
    }
    let mut slot: Option<Widget<C>> = Option::None;
    core::mem::swap(&mut widgets[from], &mut slot);
    match slot {
        Option::Some(mut w) => {
            proof {
                assert(slot_ok(m0[from as int], rect, n as int, from as int, vertical));
                assert(m0[from as int] == Option::Some(w@));
                lemma_size_pos(w@);
            }
            let pad: i64 = if w.is_container() {
                0
            } else {
                1
            };
            let n32: u32 = n as u32;
            let crect: Rect = if vertical {
                let y64: i64 = rect.y as i64 + 3 * (from as i64) + pad;
                Rect::new(rect.x, y64 as i32, rect.w, rect.h / n32)
            } else {
                let ww: u32 = rect.w / n32;
                proof {
                    let wwi = ww as int;
                    let fi = from as int;
                    assert(0 <= wwi <= 0xFFFF_FFFFint);
                    assert(0 <= fi <= 0x7FFF_FFFEint);
                    assert(0 <= wwi * fi <= 0xFFFF_FFFFint * 0x7FFF_FFFEint) by (nonlinear_arith)
                        requires
                            0 <= wwi <= 0xFFFF_FFFFint,
                            0 <= fi <= 0x7FFF_FFFEint,
                    ;
                }
                let x64: i64 = rect.x as i64 + (ww as i64) * (from as i64);
                let y64: i64 = rect.y as i64 + pad;
                Rect::new(x64 as i32, y64 as i32, ww, rect.h)
            };
            proof {
                assert(crect == child_rect(rect, n as int, from as int, child_pad(w@), vertical));
            }
            w.render(crect, console);
            let ghost wr = w;
            let mut back: Option<Widget<C>> = Option::Some(w);
            core::mem::swap(&mut widgets[from], &mut back);
            proof {
                assert(widgets@ =~= old(widgets)@.update(from as int, Option::Some(wr)));
                assert(forall|j: int|
                    from as int + 1 <= j < m0.len() ==> slot_models(widgets@)[j] == m0[j]);
                lemma_slots_size_agree(slot_models(widgets@), m0, from as int + 1);
                assert forall|j: int|
                    from as int + 1 <= j < slot_models(widgets@).len() implies slot_ok(
                    #[trigger] slot_models(widgets@)[j],
                    rect,
                    slot_models(widgets@).len() as int,
                    j,
                    vertical,
                ) by {
                    assert(slot_models(widgets@)[j] == m0[j]);
                    assert(slot_ok(m0[j], rect, m0.len() as int, j, vertical));
                }
            }
            let ghost m1 = slot_models(widgets@);
            render_slots(widgets, rect, vertical, console, from + 1);
            proof {
                lemma_rendered_from_pointwise(m1, rect, vertical, from as int + 1);
                lemma_rendered_from_pointwise(m0, rect, vertical, from as int);
                assert(slot_models(widgets@) =~= rendered_from(m0, rect, vertical, from as int));
                lemma_render_cmds_agree(m1, m0, rect, vertical, from as int + 1);
                assert_seqs_equal!(console@ == old(console)@ + render_cmds_from(m0, rect, vertical, from as int));
            }
        },
        Option::None => {
            proof {
                assert(slot_ok(m0[from as int], rect, n as int, from as int, vertical));
                assert(false);
            }
        },
    }
}

} // verus!

verus! {

/// Suffix sums agree on slot sequences whose slots weigh the same.
pub proof fn lemma_slots_size_pointwise<C>(
    s1: Seq<Option<WidgetModel<C>>>,
    s2: Seq<Option<WidgetModel<C>>>,
    from: int,
)
    requires
        s1.len() == s2.len(),
        forall|j: int|
            from <= j < s1.len() ==> (match (#[trigger] s1[j], s2[j]) {
                (Option::Some(a), Option::Some(b)) => a.size() == b.size(),
                (Option::None, Option::None) => true,
                _ => false,
            }),
    ensures
        slots_size(s1, from) == slots_size(s2, from),
    decreases s1.len() - from,
{
    if from < 0 || from >= s1.len() {
    } else {
        lemma_slots_size_pointwise(s1, s2, from + 1);
    }
}

/// Law: rendering refreshes cached rectangles and nothing else, so it
/// keeps a well-formed widget well formed, concrete, of the same size,
/// and under the same identifier.
pub proof fn lemma_render_preserves_wf<C>(m: WidgetModel<C>, rect: Rect)
    requires
        m.wf(),
    ensures
        m.render_model(rect).0.wf(),
        m.render_model(rect).0 is Empty <==> m is Empty,
        m.render_model(rect).0.size() == m.size(),
        m.render_model(rect).0.spec_id() == m.spec_id(),
    decreases m, 0int,
{
    match m {
        WidgetModel::Vbox { slots, .. } => {
            lemma_rendered_slots_wf(slots, rect, true);
        },
        WidgetModel::Hbox { slots, .. } => {
            lemma_rendered_slots_wf(slots, rect, false);
        },
        _ => {},
    }
}

/// Law: rendering a slot list keeps every slot well formed and every
/// subtree the same size.
pub proof fn lemma_rendered_slots_wf<C>(
    slots: Seq<Option<WidgetModel<C>>>,
    rect: Rect,
    vertical: bool,
)
    requires
        slots_wf(slots),
    ensures
        rendered_from(slots, rect, vertical, 0).len() == slots.len(),
        slots_wf(rendered_from(slots, rect, vertical, 0)),
        slots_size(rendered_from(slots, rect, vertical, 0), 0) == slots_size(slots, 0),
    decreases slots, 1int,
{
    lemma_rendered_from_pointwise(slots, rect, vertical, 0);
    let res = rendered_from(slots, rect, vertical, 0);
    assert forall|j: int| 0 <= j < res.len() implies slot_wf(#[trigger] res[j]) && (match (
        res[j],
        slots[j],
    ) {
        (Option::Some(a), Option::Some(b)) => a.size() == b.size(),
        (Option::None, Option::None) => true,
        _ => false,
    }) by {
        assert(slot_wf(slots[j]));
        match slots[j] {
            Option::Some(mj) => {
                lemma_render_preserves_wf(
                    mj,
                    child_rect(rect, slots.len() as int, j, child_pad(mj), vertical),
                );
            },
            Option::None => {},
        }
    }
    lemma_slots_size_pointwise(res, slots, 0);
}

} // verus!
