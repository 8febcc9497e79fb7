use ripples::{grayscale, height_to_color, index, Config, Simulation, Stencil};

fn ripple(s: Stencil<f64>) -> f64 {
    ((s.left + s.right + s.up + s.down + s.up_left + s.down_right + s.up_right + s.down_left) / 6.
        - s.own * 2.)
        * 0.3
}

fn whole(height: f64) -> i64 {
    height as i64
}

fn basin(width: usize, height: usize) -> Simulation<f64> {
    Simulation::new(Config {
        width,
        height,
        rest: 0.0,
        click_height: grayscale(1) as f64,
        drop_height: grayscale(10) as f64,
    })
}

fn same(a: &Simulation<f64>, b: &Simulation<f64>) -> bool {
    let mut equal = a.width() == b.width()
        && a.height() == b.height()
        && a.left_click() == b.left_click()
        && a.pixels() == b.pixels();
    for y in 0..a.height() {
        for x in 0..a.width() {
            equal = equal
                && a.previous(x, y) == b.previous(x, y)
                && a.current(x, y) == b.current(x, y);
        }
    }
    equal
}

#[test]
fn click_sets_the_cell_under_the_pointer() {
    let mut s = basin(6, 5);
    s.click(Some((2, 3)), true);
    assert!(s.left_click());
    assert_eq!(s.previous(2, 3), 65793.0);
    assert_eq!(s.current(2, 3), 0.0);
}

#[test]
fn held_button_clicks_every_other_frame() {
    let mut s = basin(6, 5);
    s.click(Some((1, 1)), true);
    assert!(s.left_click());
    s.click(Some((2, 2)), true);
    assert!(!s.left_click());
    assert_eq!(s.previous(2, 2), 0.0);
    s.click(Some((3, 3)), true);
    assert!(s.left_click());
    assert_eq!(s.previous(3, 3), 65793.0);
    s.click(Some((4, 3)), true);
    assert!(!s.left_click());
    assert_eq!(s.previous(4, 3), 0.0);
}

#[test]
fn released_button_clicks_nothing() {
    let mut s = basin(6, 5);
    s.click(Some((1, 1)), false);
    assert!(!s.left_click());
    assert_eq!(s.previous(1, 1), 0.0);
    s.click(Some((1, 1)), true);
    assert!(s.left_click());
    s.click(Some((2, 1)), false);
    assert!(!s.left_click());
    assert_eq!(s.previous(2, 1), 0.0);
}

#[test]
fn pointer_outside_changes_nothing() {
    let mut s = basin(6, 5);
    s.click(None, true);
    assert!(!s.left_click());
    s.click(Some((1, 1)), true);
    assert!(s.left_click());
    s.click(None, true);
    assert!(s.left_click());
    s.click(None, false);
    assert!(s.left_click());
    s.click(Some((2, 2)), true);
    assert!(!s.left_click());
    assert_eq!(s.previous(2, 2), 0.0);
}

#[test]
fn click_reaches_the_outer_ring() {
    let mut s = basin(6, 5);
    s.click(Some((0, 4)), true);
    assert_eq!(s.previous(0, 4), 65793.0);
}

#[test]
fn rain_sets_the_cell_the_drop_falls_on() {
    let mut s = basin(6, 5);
    s.rain(None);
    assert!(same(&s, &basin(6, 5)));
    s.rain(Some((4, 2)));
    assert_eq!(s.previous(4, 2), 657930.0);
    assert_eq!(s.current(4, 2), 0.0);
    assert!(!s.left_click());
}

#[test]
fn drop_falls_after_the_click() {
    let mut s = basin(6, 5);
    s.frame(Some((2, 2)), true, Some((2, 2)), ripple, whole);
    assert_eq!(s.current(2, 2), 657930.0);
}

#[test]
fn render_paints_the_interior_from_the_current_generation() {
    let mut s = basin(5, 4);
    s.perturb(1, 1, 300.7);
    s.perturb(2, 1, -1.5);
    s.perturb(3, 1, 255.0);
    s.perturb(1, 2, 256.0);
    s.perturb(2, 2, 0.9);
    s.perturb(3, 2, 10.0);
    s.swap();
    s.render(whole);
    assert_eq!(s.pixel(1, 1), 0x2C2C2C);
    assert_eq!(s.pixel(2, 1), 0xFFFFFF);
    assert_eq!(s.pixel(3, 1), 0xFFFFFF);
    assert_eq!(s.pixel(1, 2), 0x000000);
    assert_eq!(s.pixel(2, 2), 0x000000);
    assert_eq!(s.pixel(3, 2), 0x0A0A0A);
    assert_eq!(s.pixels()[index(3, 2, 5)], 0x0A0A0A);
    assert_eq!(s.pixels()[index(1, 1, 5)], height_to_color(300));
}

#[test]
fn render_leaves_the_outer_ring_black() {
    let mut s = basin(5, 4);
    for y in 0..4 {
        for x in 0..5 {
            s.perturb(x, y, 200.0);
        }
    }
    s.swap();
    s.render(whole);
    for y in 0..4 {
        for x in 0..5 {
            let inside = 1 <= x && x < 4 && 1 <= y && y < 3;
            assert_eq!(s.pixel(x, y), if inside { 0xC8C8C8 } else { 0 });
        }
    }
}

#[test]
fn render_leaves_the_heights_alone() {
    let mut s = basin(5, 4);
    s.perturb(2, 2, 77.0);
    s.swap();
    s.perturb(1, 1, 33.0);
    s.render(whole);
    assert_eq!(s.current(2, 2), 77.0);
    assert_eq!(s.previous(1, 1), 33.0);
    assert_eq!(s.previous(2, 2), 0.0);
    assert_eq!(s.pixel(1, 1), 0);
    assert_eq!(s.pixel(2, 2), 0x4D4D4D);
}

#[test]
fn pixels_lie_row_after_row() {
    let mut s = basin(4, 3);
    s.perturb(2, 1, 9.0);
    s.swap();
    s.render(whole);
    let mut expected = vec![0u32; 12];
    expected[6] = 0x090909;
    assert_eq!(s.pixels(), &expected[..]);
}

#[test]
fn frame_is_click_rain_step_render_swap() {
    let mut whole_frames = basin(9, 7);
    let mut by_hand = basin(9, 7);
    let inputs = [
        (Some((4, 3)), true, None),
        (Some((4, 3)), true, Some((2, 2))),
        (None, true, Some((7, 5))),
        (Some((5, 4)), true, None),
        (Some((5, 4)), false, None),
        (Some((0, 0)), true, Some((1, 5))),
        (None, false, None),
    ];
    for (cursor, button_down, drop) in inputs {
        whole_frames.frame(cursor, button_down, drop, ripple, whole);
        by_hand.click(cursor, button_down);
        by_hand.rain(drop);
        by_hand.step(ripple);
        by_hand.render(whole);
        by_hand.swap();
        assert!(same(&whole_frames, &by_hand));
    }
    assert!(!same(&whole_frames, &basin(9, 7)));
}

#[test]
fn frame_spreads_a_drop_and_shows_it() {
    let mut s = basin(5, 5);
    s.frame(None, false, Some((2, 2)), ripple, whole);
    assert_eq!(s.current(2, 2), 657930.0);
    assert_eq!(s.previous(2, 2), 0.0);
    assert_eq!(s.pixel(2, 2), 0);
    for (x, y) in [(1, 1), (2, 1), (3, 1), (1, 2), (3, 2), (1, 3), (2, 3), (3, 3)] {
        assert!((s.previous(x, y) - 32896.5).abs() < 1e-9);
        assert_eq!(s.pixel(x, y), 0x808080);
        assert_eq!(s.current(x, y), 0.0);
    }
    for i in 0..5 {
        assert_eq!(s.pixel(i, 0), 0);
        assert_eq!(s.pixel(i, 4), 0);
        assert_eq!(s.pixel(0, i), 0);
        assert_eq!(s.pixel(4, i), 0);
        assert_eq!(s.previous(i, 0), 0.0);
        assert_eq!(s.previous(0, i), 0.0);
    }
    assert!(!s.left_click());
}

#[test]
fn frame_without_impulse_keeps_still_water_still() {
    let mut s = basin(8, 6);
    for _ in 0..4 {
        s.frame(None, false, None, ripple, whole);
    }
    assert!(same(&s, &basin(8, 6)));
}

#[test]
fn frame_notes_the_click() {
    let mut s = basin(8, 6);
    s.frame(Some((3, 3)), true, None, ripple, whole);
    assert!(s.left_click());
    assert_eq!(s.current(3, 3), 65793.0);
    s.frame(Some((3, 3)), true, None, ripple, whole);
    assert!(!s.left_click());
    s.frame(None, true, None, ripple, whole);
    assert!(!s.left_click());
}

#[test]
fn takes_click_needs_the_button_and_a_frame_of_rest() {
    let mut s = basin(6, 5);
    assert!(s.takes_click(true));
    assert!(!s.takes_click(false));
    s.click(Some((1, 1)), true);
    assert!(!s.takes_click(true));
    assert!(!s.takes_click(false));
}
