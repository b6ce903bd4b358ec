use rusty_planets::input::{action_for_text, Action};
use rusty_planets::palette::{planet_color, DEFAULT_COLOR, STAR_COLOR};

#[test]
fn known_planet_colours() {
    assert_eq!(planet_color(1), [0xa0, 0x85, 0x68, 255]);
    assert_eq!(planet_color(3), [0x1c, 0x24, 0x3b, 255]);
    assert_eq!(planet_color(8), [0x40, 0x68, 0xfd, 255]);
    assert_eq!(planet_color(9), [0xed, 0xc7, 0xa2, 255]);
}

#[test]
fn unknown_planet_gets_default_colour() {
    assert_eq!(planet_color(0), DEFAULT_COLOR);
    assert_eq!(planet_color(10), [244, 244, 244, 244]);
    assert_eq!(planet_color(u32::MAX), DEFAULT_COLOR);
    assert_eq!(STAR_COLOR, [255, 255, 100, 255]);
}

#[test]
fn keys_map_to_actions() {
    assert_eq!(action_for_text("q"), Some(Action::Close));
    assert_eq!(action_for_text("+"), Some(Action::SpeedUp));
    assert_eq!(action_for_text("-"), Some(Action::SlowDown));
    assert_eq!(action_for_text("z"), Some(Action::ZoomIn));
    assert_eq!(action_for_text("x"), Some(Action::ZoomOut));
}

#[test]
fn other_text_does_nothing() {
    assert_eq!(action_for_text(""), None);
    assert_eq!(action_for_text("Q"), None);
    assert_eq!(action_for_text("qq"), None);
    assert_eq!(action_for_text("é"), None);
}
