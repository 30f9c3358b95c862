use text_box::frame::Frame;
use text_box::{Key, TextBox};

fn twelve_lines() -> String {
    let mut text = String::new();
    for n in 1..=12 {
        if n > 1 {
            text.push('\n');
        }
        text.push_str(&format!("l{}", n));
    }
    text
}

#[test]
fn twelve_lines_take_two_digits() {
    let mut tb = TextBox::new(Some(twelve_lines()), Some(20), None);
    let frame = tb.render(24);
    assert_eq!(frame.lines.len(), 12);
    assert_eq!(frame.lines[0], " 1 | l1");
    assert_eq!(frame.lines[8], " 9 | l9");
    assert_eq!(frame.lines[9], "10 | l10");
    assert_eq!(frame.lines[11], "12 | l12");
    assert_eq!(frame.cursor_x, 5);
    assert_eq!(frame.cursor_y, 0);
}

#[test]
fn nine_lines_take_one_digit() {
    let mut tb = TextBox::new(Some("a\nb\nc\nd\ne\nf\ng\nh\ni".to_string()), Some(20), None);
    tb.key_event(Key::Right);
    let frame = tb.render(24);
    assert_eq!(frame.lines.len(), 9);
    assert_eq!(frame.lines[0], "1 | a");
    assert_eq!(frame.lines[8], "9 | i");
    assert_eq!(frame.cursor_x, 5);
}

#[test]
fn empty_box_shows_one_empty_line() {
    let mut tb = TextBox::new(None, None, None);
    let frame = tb.render(24);
    assert_eq!(
        frame,
        Frame { lines: vec!["1 | ".to_string()], cursor_x: 4, cursor_y: 0 }
    );
}

#[test]
fn window_follows_the_cursor() {
    let mut tb = TextBox::new(Some(twelve_lines()), Some(2), None);
    for _ in 0..5 {
        tb.key_event(Key::Down);
    }
    tb.key_event(Key::Right);
    let frame = tb.render(24);
    assert_eq!(
        frame.lines,
        vec![
            " 4 | l4".to_string(),
            " 5 | l5".to_string(),
            " 6 | l6".to_string(),
            " 7 | l7".to_string()
        ]
    );
    assert_eq!(frame.cursor_x, 6);
    assert_eq!(frame.cursor_y, 2);
}

#[test]
fn window_is_cut_at_both_ends_of_the_text() {
    let mut tb = TextBox::new(Some("a\nb\nc".to_string()), Some(2), None);
    let frame = tb.render(24);
    assert_eq!(frame.lines, vec!["1 | a".to_string(), "2 | b".to_string()]);
    assert_eq!(frame.cursor_y, 0);
    tb.key_event(Key::Down);
    tb.key_event(Key::Down);
    let frame = tb.render(24);
    assert_eq!(
        frame.lines,
        vec!["1 | a".to_string(), "2 | b".to_string(), "3 | c".to_string()]
    );
    assert_eq!(frame.cursor_y, 2);
}

#[test]
fn no_visible_lines_show_nothing() {
    let mut tb = TextBox::new(Some("a\nb".to_string()), Some(0), None);
    tb.key_event(Key::Down);
    let frame = tb.render(24);
    assert_eq!(frame.lines, Vec::<String>::new());
    assert_eq!(frame.cursor_x, 4);
    assert_eq!(frame.cursor_y, 0);
}

#[test]
fn huge_window_shows_everything() {
    let mut tb = TextBox::new(Some("a\nb".to_string()), Some(usize::MAX), None);
    tb.key_event(Key::Down);
    let frame = tb.render(24);
    assert_eq!(frame.lines, vec!["1 | a".to_string(), "2 | b".to_string()]);
    assert_eq!(frame.cursor_y, 1);
}

#[test]
fn auto_update_takes_the_terminal_height() {
    let mut tb = TextBox::new(Some(twelve_lines()), Some(5), Some(true));
    let frame = tb.render(3);
    assert_eq!(tb.lines, 3);
    assert_eq!(frame.lines.len(), 3);
    let mut fixed = TextBox::new(Some(twelve_lines()), Some(5), Some(false));
    let frame = fixed.render(3);
    assert_eq!(fixed.lines, 5);
    assert_eq!(frame.lines.len(), 5);
}

#[test]
fn update_lines_sets_the_number_of_lines() {
    let mut tb = TextBox::new(Some("a".to_string()), None, None);
    tb.update_lines(17);
    assert_eq!(tb.lines, 17);
    assert_eq!(tb.text, "a");
    assert!(!tb.auto_update);
}

#[test]
fn render_clamps_the_cursor() {
    let mut tb = TextBox::new(Some("ab\nc".to_string()), None, None);
    tb.cursor_y = 9;
    tb.cursor_x = 9;
    let frame = tb.render(24);
    assert_eq!((tb.cursor_y, tb.cursor_x), (1, 1));
    assert_eq!(frame.cursor_x, 5);
    assert_eq!(frame.cursor_y, 1);
    assert_eq!(tb.text, "ab\nc");
}

#[test]
fn render_leaves_the_origin_alone() {
    let mut tb = TextBox::new(Some("ab".to_string()), None, None);
    tb.x = 3;
    tb.y = 4;
    let frame = tb.render(24);
    assert_eq!((tb.x, tb.y), (3, 4));
    assert_eq!(frame.lines, vec!["1 | ab".to_string()]);
}
