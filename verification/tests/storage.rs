use todo_rs::storage::{load_state, save_state, split_lines, IllFormedLine};

fn items(texts: &[&str]) -> Vec<String> {
    texts.iter().map(|t| t.to_string()).collect()
}

#[test]
fn save_writes_todo_lines_then_done_lines() {
    let text = save_state(&items(&["a", "b"]), &items(&["c"]));
    assert_eq!(text, "TODO: a\nTODO: b\nDONE: c\n");
}

#[test]
fn save_of_two_empty_lists_is_empty() {
    assert_eq!(save_state(&items(&[]), &items(&[])), "");
}

#[test]
fn load_reads_back_what_save_wrote() {
    let text = save_state(&items(&["a", "b"]), &items(&["c"]));
    let mut todos = Vec::new();
    let mut dones = Vec::new();
    assert_eq!(load_state(&mut todos, &mut dones, &text), Ok(()));
    assert_eq!(todos, items(&["a", "b"]));
    assert_eq!(dones, items(&["c"]));
}

#[test]
fn load_takes_lines_in_any_order() {
    let mut todos = items(&["kept"]);
    let mut dones = Vec::new();
    let text = "DONE: one\nTODO: two\nDONE: three\nTODO: ";
    assert_eq!(load_state(&mut todos, &mut dones, text), Ok(()));
    assert_eq!(todos, items(&["kept", "two", ""]));
    assert_eq!(dones, items(&["one", "three"]));
}

#[test]
fn load_rejects_an_unknown_prefix() {
    let mut todos = Vec::new();
    let mut dones = Vec::new();
    assert_eq!(load_state(&mut todos, &mut dones, "NOTE: x"), Err(IllFormedLine { line: 1 }));
    assert!(todos.is_empty());
    assert!(dones.is_empty());
}

#[test]
fn load_names_the_first_ill_formed_line() {
    let mut todos = Vec::new();
    let mut dones = Vec::new();
    let text = "TODO: a\nDONE: b\nNOTE: x\nTODO: c\nrubbish\n";
    assert_eq!(load_state(&mut todos, &mut dones, text), Err(IllFormedLine { line: 3 }));
    assert_eq!(todos, items(&["a"]));
    assert_eq!(dones, items(&["b"]));
}

#[test]
fn load_rejects_an_empty_line() {
    let mut todos = Vec::new();
    let mut dones = Vec::new();
    assert_eq!(load_state(&mut todos, &mut dones, "TODO: a\n\nTODO: b\n"), Err(IllFormedLine { line: 2 }));
}

#[test]
fn load_of_an_empty_text_adds_nothing() {
    let mut todos = Vec::new();
    let mut dones = Vec::new();
    assert_eq!(load_state(&mut todos, &mut dones, ""), Ok(()));
    assert!(todos.is_empty());
    assert!(dones.is_empty());
}

#[test]
fn split_lines_cuts_at_line_feeds() {
    assert_eq!(split_lines(""), items(&[]));
    assert_eq!(split_lines("a"), items(&["a"]));
    assert_eq!(split_lines("a\n"), items(&["a"]));
    assert_eq!(split_lines("a\nb"), items(&["a", "b"]));
    assert_eq!(split_lines("a\n\nb\n"), items(&["a", "", "b"]));
    assert_eq!(split_lines("\n"), items(&[""]));
    assert_eq!(split_lines("\n\n"), items(&["", ""]));
}

#[test]
fn split_lines_drops_a_carriage_return_before_a_line_feed() {
    assert_eq!(split_lines("a\r\nb\r\n"), items(&["a", "b"]));
    assert_eq!(split_lines("a\r\r\n"), items(&["a\r"]));
    assert_eq!(split_lines("a\rb\n"), items(&["a\rb"]));
    assert_eq!(split_lines("a\r"), items(&["a\r"]));
    assert_eq!(split_lines("\r\n"), items(&[""]));
    assert_eq!(split_lines("\r"), items(&["\r"]));
    assert_eq!(split_lines("x\n\r"), items(&["x", "\r"]));
}

#[test]
fn split_lines_agrees_with_the_standard_library() {
    let texts = [
        "", "a", "a\n", "\n", "\r\n", "\r", "a\r\nb", "a\r\r\nb\r", "TODO: x\nDONE: y\n", "\n\n\n",
        "caf\u{e9}\r\n\u{1f600}\n", "a\n\rb", "\r\r", "a\r\n\r\n",
    ];
    for text in texts {
        let expected: Vec<String> = std::io::BufRead::lines(text.as_bytes()).map(|l| l.unwrap()).collect();
        assert_eq!(split_lines(text), expected, "for {:?}", text);
    }
}

#[test]
fn load_accepts_windows_line_ends() {
    let mut todos = Vec::new();
    let mut dones = Vec::new();
    assert_eq!(load_state(&mut todos, &mut dones, "TODO: a\r\nDONE: b\r\n"), Ok(()));
    assert_eq!(todos, items(&["a"]));
    assert_eq!(dones, items(&["b"]));
}
