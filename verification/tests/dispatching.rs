use simple_tui::functions::{button, hbox, lable, vbox};
use simple_tui::{
    inner_vbox_trigger, AsWidget, Callback, Command, Console, Event, Flow, KeyCode, Modifiers,
    MouseButton, Rect, Widget, WidgetModel,
};

/// The counter action: a click bumps the number after "Counter: " in the
/// matched label's text.
struct Bump;

impl Callback for Bump {
    // Ghost members of the trait; never called at run time.
    fn spec_apply(&self, _w: WidgetModel<Self>) -> WidgetModel<Self> {
        WidgetModel::Empty
    }

    fn apply_preserves(&self, _w: WidgetModel<Self>) {
    }

    fn apply(&self, w: Widget<Self>) -> Widget<Self> {
        match w {
            Widget::Lable(mut l) => {
                let n: usize = l.text["Counter: ".len()..].parse().unwrap();
                l.text = format!("Counter: {}", n + 1);
                Widget::Lable(l)
            }
            other => other,
        }
    }
}

fn label_text(w: &Option<Widget<Bump>>) -> String {
    match w {
        Some(Widget::Lable(l)) => l.text.clone(),
        _ => panic!("expected a label in this slot"),
    }
}

fn nested_label(root: &simple_tui::Vbox<Bump>) -> String {
    match &root.widgets[0] {
        Some(Widget::Hbox(h)) => label_text(&h.widgets[1]),
        _ => panic!("tree shape changed"),
    }
}

#[test]
fn click_on_button_bumps_sibling_counter() {
    // One valid click on the button must turn the sibling label's text
    // into "Counter: 1" and mutate nothing else.
    let slots: Vec<Option<Widget<Bump>>> = vec![
        lable("Counter: 0").set_id(1).as_widget(),
        button("Click me!").set_rid(1).on_click(Bump).as_widget(),
    ];
    let mut root = vbox(slots);
    let mut con = Console::new();
    root.render(Rect::new(0, 0, 40, 10), &mut con);
    // The wrapped button cached its child rectangle: rows 4..9, columns
    // 0..40. A left click on its row, inside its span:
    let flow = root.handle_event(
        Event::MouseDown { button: MouseButton::Left, column: 7, row: 4 },
        &mut con,
    );
    assert_eq!(flow, Flow::Running);
    assert_eq!(label_text(&root.widgets[0]), "Counter: 1");
    match &root.widgets[1] {
        Some(Widget::Button(b)) => assert_eq!(b.text, "Click me!"),
        _ => panic!("button moved"),
    }
    // The hit queued a screen clear for the redraw.
    assert!(matches!(con.commands.last(), Some(Command::Clear)));
}

#[test]
fn click_triggers_callback_exactly_once() {
    // One click event, one application: the counter goes up by exactly
    // one, also when the click lands on the inclusive right edge
    // x + w of the button's span.
    let slots: Vec<Option<Widget<Bump>>> = vec![
        lable("Counter: 0").set_id(1).as_widget(),
        button("go").set_rid(1).on_click(Bump).as_widget(),
    ];
    let mut root = vbox(slots);
    let mut con = Console::new();
    root.render(Rect::new(0, 0, 40, 10), &mut con);
    let _ = root.handle_event(
        Event::MouseDown { button: MouseButton::Left, column: 40, row: 4 },
        &mut con,
    );
    assert_eq!(label_text(&root.widgets[0]), "Counter: 1");
}

#[test]
fn click_off_row_hits_nothing() {
    let slots: Vec<Option<Widget<Bump>>> = vec![
        lable("Counter: 0").set_id(1).as_widget(),
        button("go").set_rid(1).on_click(Bump).as_widget(),
    ];
    let mut root = vbox(slots);
    let mut con = Console::new();
    root.render(Rect::new(0, 0, 40, 10), &mut con);
    let _ = root.handle_event(
        Event::MouseDown { button: MouseButton::Left, column: 7, row: 5 },
        &mut con,
    );
    assert_eq!(label_text(&root.widgets[0]), "Counter: 0");
}

#[test]
fn unmatched_related_identifier_is_silent_noop() {
    // No widget carries identifier 99: the click must leave every
    // widget's text and identifier unchanged, with no error.
    let inner: Vec<Option<Widget<Bump>>> = vec![lable("Counter: 5").set_id(2).as_widget()];
    let slots: Vec<Option<Widget<Bump>>> = vec![
        lable("Counter: 0").set_id(1).as_widget(),
        hbox(inner).as_widget(),
        button("go").set_rid(99).on_click(Bump).as_widget(),
    ];
    let mut root = vbox(slots);
    let mut con = Console::new();
    root.render(Rect::new(0, 0, 40, 12), &mut con);
    // The button is the third child: rows 3*2+1 = 7 .. 11.
    let _ = root.handle_event(
        Event::MouseDown { button: MouseButton::Left, column: 3, row: 7 },
        &mut con,
    );
    assert_eq!(label_text(&root.widgets[0]), "Counter: 0");
    match &root.widgets[1] {
        Some(Widget::Hbox(h)) => assert_eq!(label_text(&h.widgets[0]), "Counter: 5"),
        _ => panic!("tree shape changed"),
    }
}

#[test]
fn resolution_crosses_container_boundaries() {
    // The target label sits inside a nested horizontal box; the button
    // sits at the top level. The click must mutate the nested label.
    let inner: Vec<Option<Widget<Bump>>> = vec![lable("Counter: 3").set_id(7).as_widget()];
    let slots: Vec<Option<Widget<Bump>>> = vec![
        button("go").set_rid(7).on_click(Bump).as_widget(),
        hbox(inner).as_widget(),
    ];
    let mut root = vbox(slots);
    let mut con = Console::new();
    root.render(Rect::new(0, 0, 40, 9), &mut con);
    // The button is the first child: rows 1..5.
    let _ = root.handle_event(
        Event::MouseDown { button: MouseButton::Left, column: 3, row: 1 },
        &mut con,
    );
    match &root.widgets[1] {
        Some(Widget::Hbox(h)) => assert_eq!(label_text(&h.widgets[0]), "Counter: 4"),
        _ => panic!("tree shape changed"),
    }
}

#[test]
fn nested_button_narrow_right_bound() {
    // Inside a nested container the right bound narrows to x + w - 1:
    // the inner button spans columns 0..20, so a click at column 20
    // misses and one at 19 hits. Its target label sits beside it in the
    // same nested box.
    let inner: Vec<Option<Widget<Bump>>> = vec![
        button("go").set_rid(4).on_click(Bump).as_widget(),
        lable("Counter: 0").set_id(4).as_widget(),
    ];
    let slots: Vec<Option<Widget<Bump>>> = vec![hbox(inner).as_widget()];
    let mut root = vbox(slots);
    let mut con = Console::new();
    root.render(Rect::new(0, 0, 40, 9), &mut con);
    // Inner button rect: x 0, w 20, row 1.
    let _ = root.handle_event(
        Event::MouseDown { button: MouseButton::Left, column: 20, row: 1 },
        &mut con,
    );
    assert_eq!(nested_label(&root), "Counter: 0");
    let _ = root.handle_event(
        Event::MouseDown { button: MouseButton::Left, column: 19, row: 1 },
        &mut con,
    );
    assert_eq!(nested_label(&root), "Counter: 1");
    // The nested hit flushes rather than clearing the whole screen.
    assert!(matches!(con.commands.last(), Some(Command::Flush)));
}

#[test]
fn resize_event_mutates_no_widget() {
    let slots: Vec<Option<Widget<Bump>>> = vec![
        lable("Counter: 0").set_id(1).as_widget(),
        button("go").set_rid(1).on_click(Bump).as_widget(),
    ];
    let mut root = vbox(slots);
    let mut con = Console::new();
    root.render(Rect::new(0, 0, 40, 10), &mut con);
    let before = con.commands.len();
    let flow = root.handle_event(Event::Resize { width: 20, height: 5 }, &mut con);
    assert_eq!(flow, Flow::Running);
    // Only a screen clear was queued; every widget's state is untouched.
    assert_eq!(con.commands.len(), before + 1);
    assert!(matches!(con.commands.last(), Some(Command::Clear)));
    assert_eq!(label_text(&root.widgets[0]), "Counter: 0");
    match &root.widgets[1] {
        Some(Widget::Button(b)) => {
            assert_eq!(b.text, "go");
            assert_eq!(b.rid, Some(1));
        }
        _ => panic!("tree shape changed"),
    }
}

#[test]
fn cancel_chord_terminates_the_loop() {
    let slots: Vec<Option<Widget<Bump>>> = vec![lable("bye").as_widget()];
    let mut root = vbox(slots);
    let mut con = Console::new();
    let flow = root.handle_event(
        Event::KeyPress { code: KeyCode::Esc, modifiers: Modifiers::none() },
        &mut con,
    );
    assert_eq!(flow, Flow::Terminated);
    assert!(matches!(con.commands.last(), Some(Command::Clear)));
}

#[test]
fn modified_escape_does_not_terminate() {
    let slots: Vec<Option<Widget<Bump>>> = vec![lable("stay").as_widget()];
    let mut root = vbox(slots);
    let mut con = Console::new();
    let flow = root.handle_event(
        Event::KeyPress {
            code: KeyCode::Esc,
            modifiers: Modifiers { shift: true, control: false, alt: false },
        },
        &mut con,
    );
    assert_eq!(flow, Flow::Running);
    assert_eq!(con.commands.len(), 0);
}

#[test]
fn other_mouse_buttons_are_ignored() {
    let slots: Vec<Option<Widget<Bump>>> = vec![
        lable("Counter: 0").set_id(1).as_widget(),
        button("go").set_rid(1).on_click(Bump).as_widget(),
    ];
    let mut root = vbox(slots);
    let mut con = Console::new();
    root.render(Rect::new(0, 0, 40, 10), &mut con);
    let flow = root.handle_event(
        Event::MouseDown { button: MouseButton::Right, column: 7, row: 4 },
        &mut con,
    );
    assert_eq!(flow, Flow::Running);
    assert_eq!(label_text(&root.widgets[0]), "Counter: 0");
}

#[test]
fn trigger_callback_returns_clicked_widget() {
    let slots: Vec<Option<Widget<Bump>>> = vec![lable("Counter: 0").set_id(1).as_widget()];
    let mut root = vbox(slots);
    let clicked: Option<Widget<Bump>> =
        button("go").set_rid(1).on_click(Bump).as_widget();
    let returned = root.trigger_callback(clicked);
    match returned {
        Some(Widget::Button(b)) => assert_eq!(b.text, "go"),
        _ => panic!("clicked widget not handed back"),
    }
    assert_eq!(label_text(&root.widgets[0]), "Counter: 1");
}

#[test]
fn button_without_callback_triggers_nothing() {
    let slots: Vec<Option<Widget<Bump>>> = vec![lable("Counter: 0").set_id(1).as_widget()];
    let mut root = vbox(slots);
    let clicked: Option<Widget<Bump>> = button("go").set_rid(1).as_widget();
    let _ = root.trigger_callback(clicked);
    assert_eq!(label_text(&root.widgets[0]), "Counter: 0");
}

#[test]
fn inner_trigger_reports_match() {
    let slots: Vec<Option<Widget<Bump>>> = vec![
        lable("Counter: 0").set_id(3).as_widget(),
        lable("Counter: 9").set_id(8).as_widget(),
    ];
    let mut vb = vbox(slots);
    assert!(inner_vbox_trigger(&mut vb, &Bump, 8));
    assert_eq!(label_text(&vb.widgets[0]), "Counter: 0");
    assert_eq!(label_text(&vb.widgets[1]), "Counter: 10");
    assert!(!inner_vbox_trigger(&mut vb, &Bump, 5));
}

#[test]
fn first_match_wins_in_insertion_order() {
    let slots: Vec<Option<Widget<Bump>>> = vec![
        lable("Counter: 0").set_id(6).as_widget(),
        lable("Counter: 0").set_id(6).as_widget(),
    ];
    let mut vb = vbox(slots);
    assert!(inner_vbox_trigger(&mut vb, &Bump, 6));
    assert_eq!(label_text(&vb.widgets[0]), "Counter: 1");
    assert_eq!(label_text(&vb.widgets[1]), "Counter: 0");
}
