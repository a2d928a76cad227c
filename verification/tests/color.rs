use circle_game::color::Color;

const ALL: [Color; 8] = [
    Color::Red,
    Color::Green,
    Color::Blue,
    Color::Yellow,
    Color::LightRed,
    Color::LightGreen,
    Color::LightBlue,
    Color::LightYellow,
];

#[test]
fn lighten() {
    assert_eq!(Color::Red.to_light(), Color::LightRed);
    assert_eq!(Color::Green.to_light(), Color::LightGreen);
    assert_eq!(Color::Blue.to_light(), Color::LightBlue);
    assert_eq!(Color::Yellow.to_light(), Color::LightYellow);
    assert_eq!(Color::LightRed.to_light(), Color::LightRed);
    assert_eq!(Color::LightGreen.to_light(), Color::LightGreen);
    assert_eq!(Color::LightBlue.to_light(), Color::LightBlue);
    assert_eq!(Color::LightYellow.to_light(), Color::LightYellow);
}

#[test]
fn darken() {
    assert_eq!(Color::Red.to_dark(), Color::Red);
    assert_eq!(Color::Green.to_dark(), Color::Green);
    assert_eq!(Color::Blue.to_dark(), Color::Blue);
    assert_eq!(Color::Yellow.to_dark(), Color::Yellow);
    assert_eq!(Color::LightRed.to_dark(), Color::Red);
    assert_eq!(Color::LightGreen.to_dark(), Color::Green);
    assert_eq!(Color::LightBlue.to_dark(), Color::Blue);
    assert_eq!(Color::LightYellow.to_dark(), Color::Yellow);
}

#[test]
fn next() {
    assert_eq!(Color::Red.next(), Color::Green);
    assert_eq!(Color::Green.next(), Color::Blue);
    assert_eq!(Color::Blue.next(), Color::Yellow);
    assert_eq!(Color::Yellow.next(), Color::Red);
    assert_eq!(Color::LightRed.next(), Color::LightGreen);
    assert_eq!(Color::LightGreen.next(), Color::LightBlue);
    assert_eq!(Color::LightBlue.next(), Color::LightYellow);
    assert_eq!(Color::LightYellow.next(), Color::LightRed);
}

#[test]
fn shade_round_trip() {
    for c in [Color::Red, Color::Green, Color::Blue, Color::Yellow] {
        assert_eq!(c.to_light().to_dark(), c);
        assert_ne!(c.to_light(), c);
    }
    for c in [Color::LightRed, Color::LightGreen, Color::LightBlue, Color::LightYellow] {
        assert_eq!(c.to_dark().to_light(), c);
        assert_ne!(c.to_dark(), c);
    }
}

#[test]
fn shade_is_idempotent() {
    for c in ALL {
        assert_eq!(c.to_light().to_light(), c.to_light());
        assert_eq!(c.to_dark().to_dark(), c.to_dark());
    }
}

#[test]
fn next_has_period_four() {
    for c in ALL {
        assert_ne!(c.next(), c);
        assert_ne!(c.next().next(), c);
        assert_ne!(c.next().next().next(), c);
        assert_eq!(c.next().next().next().next(), c);
    }
}

#[test]
fn next_keeps_the_shade() {
    for c in ALL {
        assert_eq!(c.next().to_light() == c.next(), c.to_light() == c);
    }
}

#[test]
fn color_codes() {
    assert_eq!(Color::Red.to_string(), "#e5614a");
    assert_eq!(Color::Green.to_string(), "#5cd074");
    assert_eq!(Color::Blue.to_string(), "#4aa3e3");
    assert_eq!(Color::Yellow.to_string(), "#f5ca1a");
    assert_eq!(Color::LightRed.to_string(), "#e69d91");
    assert_eq!(Color::LightGreen.to_string(), "#99d1a4");
    assert_eq!(Color::LightBlue.to_string(), "#91c1e3");
    assert_eq!(Color::LightYellow.to_string(), "#f5de84");
}
