use termui::button::Button;

#[test]
fn new_sets_width_from_label_length() {
    let b = Button::new("OK", 5, 5);
    assert_eq!(b.width, 6);
    assert_eq!(b.label, "OK");
    assert_eq!((b.x, b.y), (5, 5));
    assert!(!b.focused);
    assert_eq!(b.action_key, None);
}

#[test]
fn new_counts_label_bytes() {
    let b = Button::new("é", 1, 1);
    assert_eq!(b.width, 6);
    assert_eq!(Button::new("", 1, 1).width, 4);
}

#[test]
fn with_action_key_keeps_the_rest() {
    let b = Button::new("Save", 3, 4).with_action_key('S');
    assert_eq!(b.action_key, Some('S'));
    assert_eq!(b.label, "Save");
    assert_eq!((b.x, b.y, b.width), (3, 4, 8));
    assert!(!b.focused);
}

#[test]
fn set_focus_flips_the_flag() {
    let mut b = Button::new("OK", 1, 1);
    b.set_focus(true);
    assert!(b.focused);
    b.set_focus(false);
    assert!(!b.focused);
    assert_eq!(b.width, 6);
}

#[test]
fn is_hovered_boundary() {
    let b = Button::new("OK", 5, 5);
    assert_eq!((b.x, b.y, b.width), (5, 5, 6));
    assert!(b.is_hovered(11, 7));
    // x + width + 1 is the last column of the clickable area
    assert!(b.is_hovered(12, 7));
    assert!(!b.is_hovered(13, 7));
    assert!(b.is_hovered(5, 5));
    assert!(!b.is_hovered(4, 5));
    assert!(!b.is_hovered(5, 4));
    assert!(!b.is_hovered(5, 8));
}

#[test]
fn is_hovered_near_the_coordinate_limit() {
    let b = Button::new("OK", u16::MAX - 3, u16::MAX - 1);
    assert!(b.is_hovered(u16::MAX, u16::MAX));
    assert!(!b.is_hovered(u16::MAX - 4, u16::MAX));
}

#[test]
fn matches_key_lowercases_the_input() {
    let b = Button::new("Save", 1, 1).with_action_key('s');
    assert!(b.matches_key('s'));
    assert!(b.matches_key('S'));
    assert!(!b.matches_key('x'));
    assert!(!Button::new("Save", 1, 1).matches_key('s'));
    let upper = Button::new("Quit", 1, 1).with_action_key('Q');
    assert!(!upper.matches_key('Q'));
    assert!(!upper.matches_key('q'));
}

#[test]
fn draw_unfocused_without_key() {
    let b = Button::new("OK", 5, 5);
    let expected = [
        "\x1B[5;5H\x1B[38;2;100;116;139m┌──────┐\x1B[0m",
        "\x1B[6;5H\x1B[38;2;71;85;105m│\x1B[37m  OK  \x1B[38;2;71;85;105m│\x1B[0m",
        "\x1B[7;5H\x1B[38;2;51;65;85m└──────┘\x1B[0m",
    ]
    .concat();
    assert_eq!(b.draw(), expected);
}

#[test]
fn draw_focused_with_key() {
    let mut b = Button::new("Save", 10, 2).with_action_key('s');
    b.set_focus(true);
    let expected = [
        "\x1B[2;10H\x1B[38;2;74;222;128m┌────────┐\x1B[0m",
        "\x1B[3;10H\x1B[38;2;34;197;94m│\x1B[1;97mSave (s)\x1B[38;2;34;197;94m│\x1B[0m",
        "\x1B[4;10H\x1B[38;2;22;163;74m└────────┘\x1B[0m",
    ]
    .concat();
    assert_eq!(b.draw(), expected);
}

#[test]
fn draw_centres_like_the_format_width() {
    let b = Button::new("é", 1, 9);
    let middle = format!(
        "\x1B[10;1H\x1B[38;2;71;85;105m│\x1B[37m{:^6}\x1B[38;2;71;85;105m│\x1B[0m",
        "é"
    );
    assert!(b.draw().contains(&middle));
    assert!(b.draw().contains("  é   "));
}

#[test]
fn draw_rows_past_the_coordinate_limit() {
    let b = Button::new("", 1, u16::MAX);
    let out = b.draw();
    assert!(out.starts_with("\x1B[65535;1H"));
    assert!(out.contains("\x1B[65536;1H"));
    assert!(out.contains("\x1B[65537;1H"));
}
