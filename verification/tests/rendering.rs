use simple_tui::functions::{button, hbox, lable, vbox};
use simple_tui::{
    Alignment, AsWidget, Callback, Command, Console, NoopCallback, Rect, Widget,
};

fn draw_at(cmd: &Command) -> (i64, i64, String) {
    match cmd {
        Command::Draw { x, y, text } => (*x, *y, text.clone()),
        _ => panic!("expected a draw command"),
    }
}

#[test]
fn rect_new_and_default() {
    let r = Rect::new(2, -1, 30, 7);
    assert_eq!(r, Rect { x: 2, y: -1, w: 30, h: 7 });
    assert_eq!(Rect::default(), Rect { x: 0, y: 0, w: 0, h: 0 });
}

#[test]
fn left_alignment_draws_one_cell_in() {
    let mut l = lable("hi");
    let mut con = Console::new();
    l.render(Rect::new(4, 3, 20, 3), &mut con);
    assert_eq!(con.commands.len(), 1);
    let (x, y, text) = draw_at(&con.commands[0]);
    assert_eq!((x, y), (5, 3));
    assert_eq!(text, "hi");
}

#[test]
fn center_alignment_column_formula() {
    // Column is x + 1 + (w/2 - len/2), truncated at the draw boundary:
    // 2 + 1 + (11/2 - 2/2) = 2 + 1 + 4.5 -> cell 7.
    let mut l = lable("hi").align(Alignment::Center);
    let mut con = Console::new();
    l.render(Rect::new(2, 0, 11, 3), &mut con);
    let (x, y, _) = draw_at(&con.commands[0]);
    assert_eq!((x, y), (7, 0));
}

#[test]
fn center_alignment_text_wider_than_rect() {
    // 0 + 1 + (4/2 - 7/2) = 1 - 1.5 -> cell -1: overflow, no clipping.
    let mut l = lable("woah hi").align(Alignment::Center);
    let mut con = Console::new();
    l.render(Rect::new(0, 0, 4, 3), &mut con);
    let (x, _, _) = draw_at(&con.commands[0]);
    assert_eq!(x, -1);
}

#[test]
fn right_alignment_column_formula() {
    // Column is x - 1 + (w - len): 2 - 1 + (11 - 2) = 10.
    let mut l = lable("hi").align(Alignment::Right);
    let mut con = Console::new();
    l.render(Rect::new(2, 0, 11, 3), &mut con);
    let (x, _, _) = draw_at(&con.commands[0]);
    assert_eq!(x, 10);
}

#[test]
fn wrapped_lable_caches_given_rect() {
    let mut l = lable("boxed").wrap();
    assert_eq!(l.shape, Rect::default());
    let mut con = Console::new();
    let rect = Rect::new(3, 2, 9, 3);
    l.render(rect, &mut con);
    // The cached rectangle equals the rectangle passed to render, not a
    // derived inset.
    assert_eq!(l.shape, rect);
    assert_eq!(con.commands.len(), 5);
    let (x0, y0, top) = draw_at(&con.commands[0]);
    assert_eq!((x0, y0), (3, 1));
    assert_eq!(top, "┌───────┐");
    let (x1, y1, left) = draw_at(&con.commands[1]);
    assert_eq!((x1, y1), (3, 2));
    assert_eq!(left, "│");
    let (tx, ty, text) = draw_at(&con.commands[2]);
    assert_eq!((tx, ty), (4, 2));
    assert_eq!(text, "boxed");
    let (x3, y3, right) = draw_at(&con.commands[3]);
    assert_eq!((x3, y3), (11, 2));
    assert_eq!(right, "│");
    let (x4, y4, bottom) = draw_at(&con.commands[4]);
    assert_eq!((x4, y4), (3, 3));
    assert_eq!(bottom, "└───────┘");
}

#[test]
fn unwrapped_lable_keeps_cached_rect() {
    let mut l = lable("plain");
    let mut con = Console::new();
    l.render(Rect::new(3, 2, 9, 3), &mut con);
    assert_eq!(l.shape, Rect::default());
}

#[test]
fn wrapped_button_caches_given_rect() {
    let mut b = button::<NoopCallback>("ok");
    let mut con = Console::new();
    let rect = Rect::new(0, 4, 10, 5);
    b.render(rect, &mut con);
    assert_eq!(b.shape, rect);
    assert_eq!(con.commands.len(), 5);
    // Buttons center their text by default: 0 + 1 + (10/2 - 2/2) = 5.
    let (tx, ty, text) = draw_at(&con.commands[2]);
    assert_eq!((tx, ty), (5, 4));
    assert_eq!(text, "ok");
}

#[test]
fn narrow_wrapped_rect_keeps_corners_only() {
    let mut l = lable("x").wrap();
    let mut con = Console::new();
    l.render(Rect::new(0, 1, 1, 3), &mut con);
    let (_, _, top) = draw_at(&con.commands[0]);
    assert_eq!(top, "┌┐");
}

#[test]
fn vbox_divides_height_with_three_row_stride() {
    // Two wrapped leaves in a vertical box of height 10: each child gets
    // h/2 = 5 rows, child k starting at row 3k + 1.
    let slots: Vec<Option<Widget<NoopCallback>>> = vec![
        lable("a").wrap().as_widget(),
        lable("b").wrap().as_widget(),
    ];
    let mut vb = vbox(slots);
    let mut con = Console::new();
    vb.render(Rect::new(0, 0, 40, 10), &mut con);
    match (&vb.widgets[0], &vb.widgets[1]) {
        (Some(Widget::Lable(a)), Some(Widget::Lable(b))) => {
            assert_eq!(a.shape, Rect::new(0, 1, 40, 5));
            assert_eq!(b.shape, Rect::new(0, 4, 40, 5));
        }
        _ => panic!("tree shape changed"),
    }
}

#[test]
fn hbox_divides_width_evenly() {
    // Three wrapped leaves in a horizontal box of width 31: each child
    // gets w/3 = 10 columns, child k starting at column 10k.
    let slots: Vec<Option<Widget<NoopCallback>>> = vec![
        lable("a").wrap().as_widget(),
        lable("b").wrap().as_widget(),
        lable("c").wrap().as_widget(),
    ];
    let mut hb = hbox(slots);
    let mut con = Console::new();
    hb.render(Rect::new(0, 0, 31, 6), &mut con);
    match (&hb.widgets[0], &hb.widgets[1], &hb.widgets[2]) {
        (Some(Widget::Lable(a)), Some(Widget::Lable(b)), Some(Widget::Lable(c))) => {
            assert_eq!(a.shape, Rect::new(0, 1, 10, 6));
            assert_eq!(b.shape, Rect::new(10, 1, 10, 6));
            assert_eq!(c.shape, Rect::new(20, 1, 10, 6));
        }
        _ => panic!("tree shape changed"),
    }
}

#[test]
fn nested_container_gets_no_padding() {
    // A nested horizontal box starts at the stride row itself; a leaf is
    // inset one extra row.
    let inner: Vec<Option<Widget<NoopCallback>>> = vec![lable("in").wrap().as_widget()];
    let slots: Vec<Option<Widget<NoopCallback>>> = vec![
        hbox(inner).as_widget(),
        lable("leaf").wrap().as_widget(),
    ];
    let mut vb = vbox(slots);
    let mut con = Console::new();
    vb.render(Rect::new(0, 0, 20, 8), &mut con);
    match (&vb.widgets[0], &vb.widgets[1]) {
        (Some(Widget::Hbox(h)), Some(Widget::Lable(l))) => {
            // The inner box spans rows 0..4; its leaf sits one row in.
            match &h.widgets[0] {
                Some(Widget::Lable(li)) => assert_eq!(li.shape, Rect::new(0, 1, 20, 4)),
                _ => panic!("tree shape changed"),
            }
            assert_eq!(l.shape, Rect::new(0, 4, 20, 4));
        }
        _ => panic!("tree shape changed"),
    }
}

#[test]
fn empty_container_renders_nothing() {
    let mut vb = vbox::<NoopCallback>(Vec::new());
    let mut con = Console::new();
    vb.render(Rect::new(0, 0, 10, 10), &mut con);
    assert_eq!(con.commands.len(), 0);
}

#[test]
fn noop_callback_returns_widget_unchanged() {
    let w: Widget<NoopCallback> = Widget::Lable(lable("same"));
    let r = NoopCallback.apply(w);
    match r {
        Widget::Lable(l) => assert_eq!(l.text, "same"),
        _ => panic!("widget changed shape"),
    }
}

#[test]
fn console_records_commands_in_order() {
    let mut con = Console::new();
    assert_eq!(con.commands.len(), 0);
    con.draw((3, 4), String::from("dot"));
    con.write(String::from("more"));
    con.flush();
    con.clear();
    assert_eq!(con.commands.len(), 4);
    match &con.commands[0] {
        Command::Draw { x, y, text } => {
            assert_eq!((*x, *y), (3, 4));
            assert_eq!(text, "dot");
        }
        _ => panic!("first command should draw"),
    }
    match &con.commands[1] {
        Command::Write { text } => assert_eq!(text, "more"),
        _ => panic!("second command should write"),
    }
    assert!(matches!(con.commands[2], Command::Flush));
    assert!(matches!(con.commands[3], Command::Clear));
}

#[test]
fn take_leaves_a_tombstone_behind() {
    let mut w: Widget<NoopCallback> = Widget::Lable(lable("gone").set_id(9));
    let taken = w.take();
    assert!(matches!(w, Widget::Empty));
    match taken {
        Widget::Lable(l) => assert_eq!(l.id(), Some(9)),
        _ => panic!("wrong widget taken"),
    }
}

#[test]
fn shape_and_id_read_through_the_widget() {
    let mut l = lable("x").set_id(5).wrap();
    let mut con = Console::new();
    l.render(Rect::new(1, 1, 8, 3), &mut con);
    let w: Widget<NoopCallback> = Widget::Lable(l);
    assert_eq!(w.shape(), Rect::new(1, 1, 8, 3));
    assert_eq!(w.id(), Some(5));
    assert!(!w.is_container());
    let vb: Widget<NoopCallback> = Widget::Vbox(vbox(Vec::new()));
    assert!(vb.is_container());
    assert_eq!(vb.id(), None);
}

#[test]
fn builders_chain_and_report_wrap() {
    let l = lable("t").wrap();
    assert!(l.is_wrap());
    assert!(!lable("t").is_wrap());
    let b = button::<NoopCallback>("t");
    assert!(b.is_wrap());
    assert_eq!(b.id(), None);
    let b = b.set_id(2).set_rid(3);
    assert_eq!(b.id(), Some(2));
    assert_eq!(b.rid, Some(3));
    let vb = vbox::<NoopCallback>(Vec::new()).set_id(11);
    assert_eq!(vb.id(), Some(11));
    assert!(!vb.is_wrap());
    let hb = hbox::<NoopCallback>(Vec::new()).set_id(12);
    assert_eq!(hb.id(), Some(12));
    assert!(!hb.is_wrap());
}
