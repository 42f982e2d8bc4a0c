use cantus::scene::{choose_alpha_mode, choose_format, AlphaMode, DrawOrder, SurfaceFormat, MAX_RENDER_INSTANCES};

#[test]
fn hovered_pill_is_drawn_last() {
    let mut order = DrawOrder::new();
    // Pills come from the last queued track back to the first.
    for (index, hovered) in [(4, false), (3, true), (2, false), (1, true), (0, false)] {
        assert!(!order.full());
        order.add(index, hovered);
    }
    // The later hovered pill replaces the earlier one on top.
    assert_eq!(order.finish(), vec![0, 2, 4, 1]);
}

#[test]
fn a_frame_holds_a_bounded_number_of_pills() {
    let mut order = DrawOrder::new();
    let mut index = 1000;
    while !order.full() {
        order.add(index, index == 990);
        index -= 1;
    }
    let pills = order.finish();
    assert_eq!(pills.len(), MAX_RENDER_INSTANCES);
    assert_eq!(pills.last(), Some(&990));
    assert_eq!(pills[0], index + 1);
}

#[test]
fn surfaces_get_the_preferred_alpha_mode_and_format() {
    assert_eq!(choose_alpha_mode(true, true), AlphaMode::PreMultiplied);
    assert_eq!(choose_alpha_mode(false, true), AlphaMode::PostMultiplied);
    assert_eq!(choose_alpha_mode(false, false), AlphaMode::Auto);
    assert_eq!(choose_format(true, true), Some(SurfaceFormat::Rgba8Unorm));
    assert_eq!(choose_format(false, true), Some(SurfaceFormat::Bgra8Unorm));
    assert_eq!(choose_format(false, false), None);
}
