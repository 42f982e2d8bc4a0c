use cantus::status::{first_set, power_hold_step, PowerHold};

#[test]
fn first_set_finds_the_earliest_flag() {
    assert_eq!(first_set(&vec![false, true, true]), Some(1));
    assert_eq!(first_set(&vec![false, false]), None);
    assert_eq!(first_set(&vec![]), None);
}

#[test]
fn power_buttons_run_after_a_full_hold() {
    let hovered = vec![false, true];
    let pressed = vec![false, true];
    let idle = vec![false, false];
    // Pressing starts a hold, counting this frame.
    let (hold, run) = power_hold_step(None, &hovered, &pressed, true, 16);
    assert_eq!((hold, run), (Some(PowerHold { action: 1, held_ms: 16 }), None));
    // Holding on accumulates time until 1.5 s have passed.
    let (hold, run) = power_hold_step(hold, &hovered, &idle, true, 1000);
    assert_eq!((hold, run), (Some(PowerHold { action: 1, held_ms: 1016 }), None));
    let (hold, run) = power_hold_step(hold, &hovered, &idle, true, 484);
    assert_eq!((hold, run), (None, Some(1)));
}

#[test]
fn power_holds_end_on_release_or_leaving() {
    let hold = Some(PowerHold { action: 0, held_ms: 1400 });
    assert_eq!(power_hold_step(hold, &vec![true, false], &vec![false, false], false, 200), (None, None));
    assert_eq!(power_hold_step(hold, &vec![false, true], &vec![false, false], true, 200), (None, None));
    assert_eq!(power_hold_step(None, &vec![true, true], &vec![false, false], true, 200), (None, None));
    // A new press restarts the hold on the pressed button.
    assert_eq!(
        power_hold_step(hold, &vec![true, true], &vec![false, true], true, 10),
        (Some(PowerHold { action: 1, held_ms: 10 }), None)
    );
}
