use cantus::interaction::{InteractionState, PointerEvent, Pressure, Response};
use cantus::labels::{song_name, track_details};
use cantus::status::{supply_value_is, PowerAction};
use cantus::text::{eq_ignore_ascii_case, split_whitespace, str_less, trim};
use cantus::texture::{FilterableFloatFormat, SampledTexture, TextureWriteError};

#[test]
fn words_split_on_unicode_white_space() {
    assert_eq!(split_whitespace("  a bc\t\nd\u{3000}e  "), vec!["a", "bc", "d", "e"]);
    assert!(split_whitespace(" \u{a0} ").is_empty());
    assert_eq!(split_whitespace("x"), vec!["x"]);
}

#[test]
fn trimming_drops_outer_white_space() {
    assert_eq!(trim("  Charging\n"), "Charging");
    assert_eq!(trim("   "), "");
    assert_eq!(trim(trim(" a b ")), "a b");
}

#[test]
fn names_compare_in_string_order() {
    assert!(str_less("Chill", "Focus"));
    assert!(str_less("a", "ab"));
    assert!(!str_less("ab", "a"));
    assert!(!str_less("same", "same"));
    assert!(str_less("Z", "a"));
}

#[test]
fn song_names_drop_versions_and_features() {
    assert_eq!(song_name("Song Title - Remastered 2011"), "Song Title");
    assert_eq!(song_name("Another (feat. Someone)"), "Another");
    assert_eq!(song_name("  Plain  "), "Plain");
    assert_eq!(song_name("(Intro)"), "(Intro)");
    assert_eq!(song_name("Hy-phen"), "Hy-phen");
    assert_eq!(song_name(" - Dash first"), "- Dash first");
}

#[test]
fn track_details_show_time_and_artist() {
    assert_eq!(track_details(125_400, "Artist"), "2m5s\u{2004}\u{2022}\u{2004}Artist");
    assert_eq!(track_details(-42_600, "Band"), "43s\u{2004}\u{2022}\u{2004}Band");
    assert_eq!(track_details(59_400, "X"), "59s\u{2004}\u{2022}\u{2004}X");
    assert_eq!(track_details(59_600, "X"), "60s\u{2004}\u{2022}\u{2004}X");
    assert_eq!(track_details(0, ""), "0s\u{2004}\u{2022}\u{2004}");
}

#[test]
fn power_supply_values_ignore_case_and_space() {
    assert!(supply_value_is("Battery\n", "battery"));
    assert!(supply_value_is("  CHARGING ", "charging"));
    assert!(!supply_value_is("Discharging", "charging"));
    assert!(eq_ignore_ascii_case("MiXeD", "mixed"));
    assert!(!eq_ignore_ascii_case("mixed", "mixer"));
}

#[test]
fn power_actions() {
    assert_eq!(PowerAction::PowerOff.slot(), 5);
    assert_eq!(PowerAction::Reboot.slot(), 4);
    assert_eq!(PowerAction::PowerOff.command(), "poweroff");
    assert_eq!(PowerAction::Reboot.command(), "reboot");
    assert_eq!(PowerAction::from_index(1), Some(PowerAction::Reboot));
    assert_eq!(PowerAction::from_index(2), None);
}

fn ui() -> InteractionState<(i32, i32), u8> {
    InteractionState {
        pressure: Pressure::Hovering,
        dragging: false,
        drag_enabled: false,
        press_origin: (0, 0),
        pointer: (5, 5),
        event: None,
        scroll: 0,
        hover_claimed: false,
        pulse: None,
        regions: vec![],
    }
}

#[test]
fn widgets_claim_hover_and_clicks_once() {
    let mut state = ui();
    state.begin_frame((5, 5));
    let first = state.surface(1, true, true);
    assert_eq!(first, Response { hovered: true, pressed: false, clicked: false });
    let second = state.surface(2, true, true);
    assert!(!second.hovered);
    state.press((5, 5));
    assert!(state.down());
    let pressed = state.surface(3, true, true);
    assert!(pressed.pressed);
    assert!(!state.surface(4, true, true).pressed);
    state.release();
    assert!(state.released());
    let clicked = state.surface(5, true, true);
    assert!(clicked.clicked);
    assert!(!state.surface(6, true, true).clicked);
    assert_eq!(state.end_frame(), Some((5, 5)));
    assert_eq!(state.regions, vec![1, 2, 3, 4, 5, 6]);
    assert_eq!(state.event, None);
}

#[test]
fn drags_and_far_releases_do_not_click() {
    let mut state = ui();
    state.drag_enabled = true;
    state.press((0, 0));
    state.motion(true);
    assert!(state.dragging);
    state.release();
    assert!(!state.surface(1, true, true).clicked);
    state.cancel_drag();
    assert!(!state.dragging && !state.drag_enabled);
    state.press((0, 0));
    state.release();
    assert!(!state.surface(2, true, false).clicked);
    assert_eq!(state.event, Some(PointerEvent::Release));
    state.release();
    assert_eq!(state.event, None);
}

#[test]
fn scrolling_goes_to_the_widget_under_the_pointer() {
    let mut state = ui();
    state.scroll = 3;
    assert_eq!(state.scroll(1, false), 0);
    assert_eq!(state.scroll(2, true), 3);
    assert_eq!(state.scroll(3, true), 0);
    assert!(state.contains(true));
    state.pressure = Pressure::Outside;
    assert!(!state.contains(true));
    assert!(!state.surface(4, true, true).hovered);
}

#[test]
fn texture_writes_are_validated() {
    let texture = SampledTexture::new([64, 64, 32], FilterableFloatFormat::Rgba8Unorm);
    assert_eq!(FilterableFloatFormat::R8Unorm.bytes_per_texel(), 1);
    let copy = texture.write([0, 0, 3], [64, 64], &vec![0u8; 64 * 64 * 4]).unwrap();
    assert_eq!(copy.bytes_per_row, 256);
    assert_eq!(copy.rows_per_image, 64);
    assert_eq!(copy.origin, [0, 0, 3]);
    assert!(matches!(texture.write([0, 0, 0], [0, 4], &[]), Err(TextureWriteError::EmptyRegion)));
    assert!(matches!(texture.write([1, 0, 0], [64, 1], &[0; 256]), Err(TextureWriteError::OutOfBounds)));
    assert!(matches!(texture.write([0, 0, 32], [1, 1], &[0; 4]), Err(TextureWriteError::OutOfBounds)));
    assert!(matches!(texture.write([u32::MAX, 0, 0], [2, 1], &[0; 8]), Err(TextureWriteError::OutOfBounds)));
    let error = match texture.write([0, 0, 0], [2, 2], &[0; 15]) {
        Err(e) => e,
        Ok(_) => panic!("expected an error"),
    };
    assert_eq!(error, TextureWriteError::InvalidDataLength { expected: 16, actual: 15 });
    assert_eq!(error.message(), "texture write needs 16 bytes, received 15");
    assert_eq!(TextureWriteError::EmptyRegion.message(), "texture write region is empty");
    assert_eq!(TextureWriteError::OutOfBounds.message(), "texture write region is out of bounds");
}
