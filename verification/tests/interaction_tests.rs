use cantus::interaction::{InteractionState, Pressure};

fn idle() -> InteractionState<(i32, i32), &'static str> {
    InteractionState {
        pressure: Pressure::Hovering,
        dragging: false,
        drag_enabled: false,
        press_origin: (0, 0),
        pointer: (0, 0),
        event: None,
        scroll: 0,
        hover_claimed: false,
        pulse: None,
        regions: Vec::new(),
    }
}

#[test]
fn a_click_reaches_the_first_widget_only() {
    let mut ui = idle();
    ui.press((10, 10));
    ui.release();
    ui.begin_frame((10, 10));
    let a = ui.surface("a", true, true);
    let b = ui.surface("b", true, true);
    assert_eq!((a.hovered, a.pressed, a.clicked), (true, false, true));
    assert_eq!((b.hovered, b.pressed, b.clicked), (false, false, false));
    assert_eq!(ui.regions, vec!["a", "b"]);
    assert_eq!(ui.end_frame(), Some((10, 10)));
    assert_eq!(ui.end_frame(), None);
}

#[test]
fn frames_keep_what_they_do_not_touch() {
    let mut ui = idle();
    ui.drag_enabled = true;
    ui.press((1, 1));
    ui.motion(true);
    assert!(ui.dragging);
    ui.begin_frame((5, 5));
    assert!(ui.dragging && ui.drag_enabled);
    assert_eq!(ui.press_origin, (1, 1));
    ui.scroll = 3;
    assert_eq!(ui.scroll("s", false), 0);
    assert_eq!(ui.scroll("t", true), 3);
    assert_eq!(ui.regions, vec!["s", "t"]);
    ui.cancel_drag();
    assert!(!ui.dragging && !ui.drag_enabled);
    assert_eq!(ui.regions.len(), 2);
}
