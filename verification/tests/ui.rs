use todo_rs::text::glyph;
use todo_rs::ui::{
    is_field_ready, DrawText, Layout, LayoutKind, Ui, Vec2, HIGHLIGHT_PAIR, REGULAR_PAIR,
};

fn shown(ui: &Ui) -> Vec<(i32, i32, i16, String)> {
    ui.draws.iter().map(|d: &DrawText| (d.pos.x, d.pos.y, d.pair, d.text.clone())).collect()
}

fn field(text: &str, cursor: usize, key: Option<i32>) -> (String, usize, Option<i32>, Ui) {
    let mut ui = Ui::default();
    ui.begin(Vec2::new(3, 4), LayoutKind::Vert);
    ui.key = key;
    let mut buffer = text.to_string();
    let mut at = cursor;
    assert!(is_field_ready(&buffer, at, ui.key, 3));
    ui.edit_field(&mut buffer, &mut at, 20);
    (buffer, at, ui.key, ui)
}

#[test]
fn vec2_adds_and_multiplies_by_coordinate() {
    assert_eq!(Vec2::new(1, 2) + Vec2::new(10, 20), Vec2::new(11, 22));
    assert_eq!(Vec2::new(3, 4) * Vec2::new(5, -6), Vec2::new(15, -24));
    assert_eq!(Vec2::new(-7, 9) * Vec2::new(1, 0), Vec2::new(-7, 0));
    assert_eq!(Vec2::default(), Vec2::new(0, 0));
}

#[test]
fn available_pos_moves_along_the_axis() {
    let horz = Layout { kind: LayoutKind::Horz, pos: Vec2::new(2, 3), size: Vec2::new(10, 20) };
    assert_eq!(horz.available_pos(), Vec2::new(12, 3));
    let vert = Layout { kind: LayoutKind::Vert, pos: Vec2::new(2, 3), size: Vec2::new(10, 20) };
    assert_eq!(vert.available_pos(), Vec2::new(2, 23));
}

#[test]
fn add_widget_sums_along_the_axis_and_keeps_the_larger_across() {
    let mut horz = Layout { kind: LayoutKind::Horz, pos: Vec2::new(0, 0), size: Vec2::new(0, 0) };
    horz.add_widget(Vec2::new(5, 1));
    assert_eq!(horz.size, Vec2::new(5, 1));
    horz.add_widget(Vec2::new(7, 3));
    assert_eq!(horz.size, Vec2::new(12, 3));
    horz.add_widget(Vec2::new(1, 2));
    assert_eq!(horz.size, Vec2::new(13, 3));
    let mut vert = Layout { kind: LayoutKind::Vert, pos: Vec2::new(0, 0), size: Vec2::new(0, 0) };
    vert.add_widget(Vec2::new(5, 1));
    assert_eq!(vert.size, Vec2::new(5, 1));
    vert.add_widget(Vec2::new(3, 2));
    assert_eq!(vert.size, Vec2::new(5, 3));
    vert.add_widget(Vec2::new(9, 1));
    assert_eq!(vert.size, Vec2::new(9, 4));
    assert_eq!(vert.pos, Vec2::new(0, 0));
    assert_eq!(vert.kind, LayoutKind::Vert);
}

#[test]
fn nested_layouts_fold_into_the_root() {
    let mut ui = Ui::default();
    ui.begin(Vec2::new(0, 0), LayoutKind::Vert);
    ui.label_fixed_width("first", 10, REGULAR_PAIR);
    ui.label_fixed_width("second", 10, REGULAR_PAIR);
    ui.begin_layout(LayoutKind::Horz);
    assert_eq!(ui.layouts.len(), 2);
    assert_eq!(ui.layouts[1].pos, Vec2::new(0, 2));
    ui.label_fixed_width("left", 5, REGULAR_PAIR);
    ui.label_fixed_width("right", 5, HIGHLIGHT_PAIR);
    assert_eq!(ui.layouts[1].size, Vec2::new(10, 1));
    ui.end_layout();
    assert_eq!(ui.layouts.len(), 1);
    assert_eq!(ui.layouts[0].size, Vec2::new(10, 3));
    ui.end();
    assert!(ui.layouts.is_empty());
    assert_eq!(
        shown(&ui),
        vec![
            (0, 0, REGULAR_PAIR, "first".to_string()),
            (0, 1, REGULAR_PAIR, "second".to_string()),
            (0, 2, REGULAR_PAIR, "left".to_string()),
            (5, 2, HIGHLIGHT_PAIR, "right".to_string()),
        ]
    );
}

#[test]
fn a_wider_nested_layout_widens_the_root() {
    let mut ui = Ui::default();
    ui.begin(Vec2::new(1, 1), LayoutKind::Vert);
    ui.label_fixed_width("a", 4, REGULAR_PAIR);
    ui.begin_layout(LayoutKind::Horz);
    ui.begin_layout(LayoutKind::Vert);
    ui.label_fixed_width("b", 6, REGULAR_PAIR);
    ui.label_fixed_width("c", 6, REGULAR_PAIR);
    ui.end_layout();
    ui.begin_layout(LayoutKind::Vert);
    assert_eq!(ui.layouts[2].pos, Vec2::new(7, 2));
    ui.label_fixed_width("d", 6, REGULAR_PAIR);
    ui.end_layout();
    assert_eq!(ui.layouts[1].size, Vec2::new(12, 2));
    ui.end_layout();
    assert_eq!(ui.layouts[0].size, Vec2::new(12, 3));
    ui.end();
}

#[test]
fn label_declares_its_width_whatever_the_text() {
    let mut ui = Ui::default();
    ui.begin(Vec2::new(0, 0), LayoutKind::Horz);
    ui.label_fixed_width("much longer than three", 3, REGULAR_PAIR);
    assert_eq!(ui.layouts[0].size, Vec2::new(3, 1));
    ui.label_fixed_width("x", 3, REGULAR_PAIR);
    assert_eq!(shown(&ui)[1], (3, 0, REGULAR_PAIR, "x".to_string()));
    assert_eq!(shown(&ui)[0].3, "much longer than three");
    ui.end();
}

#[test]
fn label_takes_the_length_of_its_text() {
    let mut ui = Ui::default();
    ui.begin(Vec2::new(0, 0), LayoutKind::Horz);
    ui.label("hello", HIGHLIGHT_PAIR);
    assert_eq!(ui.layouts[0].size, Vec2::new(5, 1));
    ui.label("caf\u{e9}", REGULAR_PAIR);
    assert_eq!(ui.layouts[0].size, Vec2::new(10, 1));
    assert_eq!(shown(&ui)[1], (5, 0, REGULAR_PAIR, "caf\u{e9}".to_string()));
    ui.end();
}

#[test]
fn labels_leave_the_waiting_key_alone() {
    let mut ui = Ui::default();
    ui.key = Some(113);
    ui.begin(Vec2::new(0, 0), LayoutKind::Vert);
    ui.label_fixed_width("a", 1, REGULAR_PAIR);
    ui.begin_layout(LayoutKind::Horz);
    ui.end_layout();
    ui.end();
    assert_eq!(ui.key, Some(113));
}

#[test]
fn backspace_removes_the_character_before_the_cursor() {
    let (buffer, cursor, key, _) = field("hi", 1, Some(ncurses::KEY_BACKSPACE));
    assert_eq!(buffer, "i");
    assert_eq!(cursor, 0);
    assert_eq!(key, None);
}

#[test]
fn backspace_at_the_start_does_nothing() {
    let (buffer, cursor, key, _) = field("hi", 0, Some(0x107));
    assert_eq!(buffer, "hi");
    assert_eq!(cursor, 0);
    assert_eq!(key, None);
}

#[test]
fn backspace_at_the_end_removes_the_last_character() {
    let (buffer, cursor, _, _) = field("hi", 2, Some(0x107));
    assert_eq!(buffer, "h");
    assert_eq!(cursor, 1);
}

#[test]
fn delete_removes_the_character_under_the_cursor() {
    let (buffer, cursor, key, _) = field("hey", 1, Some(ncurses::KEY_DC));
    assert_eq!(buffer, "hy");
    assert_eq!(cursor, 1);
    assert_eq!(key, None);
    let (buffer, cursor, _, _) = field("hey", 3, Some(0x14a));
    assert_eq!(buffer, "hey");
    assert_eq!(cursor, 3);
}

#[test]
fn a_printable_key_goes_in_at_the_cursor() {
    let (buffer, cursor, key, _) = field("hllo", 1, Some('e' as i32));
    assert_eq!(buffer, "hello");
    assert_eq!(cursor, 2);
    assert_eq!(key, None);
    let (buffer, cursor, _, _) = field("hi", 2, Some('!' as i32));
    assert_eq!(buffer, "hi!");
    assert_eq!(cursor, 3);
    let (buffer, cursor, _, _) = field("", 0, Some(' ' as i32));
    assert_eq!(buffer, " ");
    assert_eq!(cursor, 1);
    let (buffer, cursor, _, _) = field("ab", 0, Some('~' as i32));
    assert_eq!(buffer, "~ab");
    assert_eq!(cursor, 1);
}

#[test]
fn the_arrows_move_the_cursor_inside_the_text() {
    let (buffer, cursor, key, _) = field("abc", 2, Some(ncurses::KEY_LEFT));
    assert_eq!((buffer.as_str(), cursor, key), ("abc", 1, None));
    let (_, cursor, _, _) = field("abc", 0, Some(0x104));
    assert_eq!(cursor, 0);
    let (buffer, cursor, key, _) = field("abc", 2, Some(ncurses::KEY_RIGHT));
    assert_eq!((buffer.as_str(), cursor, key), ("abc", 3, None));
    let (_, cursor, _, _) = field("abc", 3, Some(0x105));
    assert_eq!(cursor, 3);
}

#[test]
fn a_cursor_behind_the_text_comes_back_to_its_end() {
    let (buffer, cursor, key, _) = field("abc", 99, None);
    assert_eq!((buffer.as_str(), cursor, key), ("abc", 3, None));
    let (buffer, cursor, _, _) = field("abc", 99, Some('d' as i32));
    assert_eq!((buffer.as_str(), cursor), ("abcd", 4));
    let (_, cursor, _, _) = field("abc", usize::MAX, Some(0x104));
    assert_eq!(cursor, 2);
}

#[test]
fn other_keys_are_put_back() {
    for key in ['\n' as i32, '\t' as i32, 27, 127, 31, 0x103, 0x102, 0x106, 0x149, 0x14b, -1, 0, 1000] {
        let (buffer, cursor, left, _) = field("abc", 1, Some(key));
        assert_eq!((buffer.as_str(), cursor, left), ("abc", 1, Some(key)));
    }
}

#[test]
fn the_field_draws_its_text_and_its_cursor() {
    let (_, _, _, ui) = field("hllo", 1, Some('e' as i32));
    assert_eq!(
        shown(&ui),
        vec![(3, 4, REGULAR_PAIR, "hello".to_string()), (5, 4, HIGHLIGHT_PAIR, "l".to_string())]
    );
    assert_eq!(ui.layouts[0].size, Vec2::new(20, 1));
    let (_, _, _, ui) = field("hi", 2, None);
    assert_eq!(
        shown(&ui),
        vec![(3, 4, REGULAR_PAIR, "hi".to_string()), (5, 4, HIGHLIGHT_PAIR, " ".to_string())]
    );
}

#[test]
fn edits_respect_characters_of_several_bytes() {
    let (buffer, cursor, _, _) = field("\u{e9}", 2, Some('a' as i32));
    assert_eq!((buffer.as_str(), cursor), ("\u{e9}a", 3));
    let (buffer, cursor, _, _) = field("\u{e9}b", 0, Some(0x14a));
    assert_eq!((buffer.as_str(), cursor), ("b", 0));
    let (buffer, cursor, _, ui) = field("a\u{e9}", 1, Some(0x105));
    assert_eq!((buffer.as_str(), cursor), ("a\u{e9}", 2));
    assert_eq!(shown(&ui)[1], (5, 4, HIGHLIGHT_PAIR, " ".to_string()));
    let (_, cursor, _, ui) = field("a\u{e9}", 0, Some(0x105));
    assert_eq!(cursor, 1);
    assert_eq!(shown(&ui)[1], (4, 4, HIGHLIGHT_PAIR, " ".to_string()));
}

#[test]
fn an_edit_inside_a_character_is_not_ready() {
    assert!(!is_field_ready("\u{e9}", 1, Some('a' as i32), 0));
    assert!(!is_field_ready("\u{e9}", 1, Some(0x14a), 0));
    assert!(!is_field_ready("\u{e9}", 2, Some(0x107), 0));
    assert!(is_field_ready("\u{e9}", 1, Some(0x104), 0));
    assert!(is_field_ready("\u{e9}", 1, Some(0x107), 0));
    assert!(is_field_ready("\u{e9}", 1, None, 0));
    assert!(is_field_ready("abc", 1, Some('a' as i32), i32::MAX - 2));
    assert!(!is_field_ready("abc", 1, Some('a' as i32), i32::MAX - 1));
}

#[test]
fn glyph_is_the_single_byte_character_or_a_blank() {
    assert_eq!(glyph("abc", 0), "a");
    assert_eq!(glyph("abc", 2), "c");
    assert_eq!(glyph("abc", 3), " ");
    assert_eq!(glyph("abc", usize::MAX), " ");
    assert_eq!(glyph("", 0), " ");
    assert_eq!(glyph("a\u{e9}b", 1), " ");
    assert_eq!(glyph("a\u{e9}b", 2), " ");
    assert_eq!(glyph("a\u{e9}b", 3), "b");
}
