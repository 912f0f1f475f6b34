use red::editor::{Editor, Line};
use red::vector2::Vector2;

fn editor_of(lines: &[&str], column: usize, line: usize) -> Editor {
    let mut e = Editor::new();
    e.lines = lines.iter().map(|l| Line { chars: l.to_string() }).collect();
    e.cursor = Vector2::new(column, line);
    e
}

fn editor_lines(e: &Editor) -> Vec<String> {
    e.lines.iter().map(|l| l.chars.clone()).collect()
}

fn editor_cursor(e: &Editor) -> (usize, usize) {
    (e.cursor.x, e.cursor.y)
}

#[test]
fn new_editor_is_one_empty_line() {
    let e = Editor::new();
    assert_eq!(editor_lines(&e), [""]);
    assert_eq!(editor_cursor(&e), (0, 0));
    assert_eq!(e.save("output"), ("output".to_string(), "\n".to_string()));
}

#[test]
fn editor_newline_insert_backspace_at_end_of_line() {
    let mut e = editor_of(&["abc", "def"], 3, 0);
    e.newline();
    assert_eq!(editor_lines(&e), ["abc", "", "def"]);
    assert_eq!(editor_cursor(&e), (0, 1));
    e.insert_text("X");
    assert_eq!(editor_lines(&e), ["abc", "X", "def"]);
    assert_eq!(editor_cursor(&e), (1, 1));
    e.backspace();
    assert_eq!(editor_lines(&e), ["abc", "", "def"]);
    assert_eq!(editor_cursor(&e), (0, 1));
}

#[test]
fn editor_backspace_at_line_start_joins_with_line_above() {
    let mut e = editor_of(&["abc", "def"], 0, 1);
    e.backspace();
    assert_eq!(editor_lines(&e), ["abcdef"]);
    assert_eq!(editor_cursor(&e), (3, 0));
}

#[test]
fn editor_delete_at_line_end_joins_with_line_below() {
    let mut e = editor_of(&["abc", "def"], 3, 0);
    e.delete();
    assert_eq!(editor_lines(&e), ["abcdef"]);
    assert_eq!(editor_cursor(&e), (3, 0));
}

#[test]
fn editor_erases_single_characters_inside_a_line() {
    let mut e = editor_of(&["abc", "dèf"], 2, 1);
    e.backspace();
    assert_eq!(editor_lines(&e), ["abc", "df"]);
    assert_eq!(editor_cursor(&e), (1, 1));
    e.delete();
    assert_eq!(editor_lines(&e), ["abc", "d"]);
    assert_eq!(editor_cursor(&e), (1, 1));
    e.delete();
    assert_eq!(editor_lines(&e), ["abc", "d"]);
    let mut e = editor_of(&["abc"], 0, 0);
    e.backspace();
    assert_eq!(editor_lines(&e), ["abc"]);
    assert_eq!(editor_cursor(&e), (0, 0));
}

#[test]
fn editor_moves_stay_inside_the_document() {
    let mut e = editor_of(&["abcdef", "xy", "0123"], 5, 0);
    e.move_up();
    assert_eq!(editor_cursor(&e), (5, 0));
    e.move_right();
    e.move_right();
    assert_eq!(editor_cursor(&e), (6, 0));
    e.move_down();
    assert_eq!(editor_cursor(&e), (2, 1));
    e.move_down();
    e.move_down();
    assert_eq!(editor_cursor(&e), (2, 2));
    e.move_left();
    e.move_left();
    e.move_left();
    assert_eq!(editor_cursor(&e), (0, 2));
    e.move_up();
    e.move_up();
    assert_eq!(editor_cursor(&e), (0, 0));
    assert_eq!(editor_lines(&e), ["abcdef", "xy", "0123"]);
}

#[test]
fn editor_inserts_text_at_the_cursor() {
    let mut e = editor_of(&["abc", "def"], 1, 1);
    e.insert_text("é€");
    assert_eq!(editor_lines(&e), ["abc", "dé€ef"]);
    assert_eq!(editor_cursor(&e), (3, 1));
    e.newline();
    assert_eq!(editor_lines(&e), ["abc", "dé€", "ef"]);
    assert_eq!(editor_cursor(&e), (0, 2));
}

#[test]
fn editor_line_insert_and_remove() {
    let mut line = Line { chars: "héllo".to_string() };
    line.insert("XY", 2);
    assert_eq!(line.chars, "héXYllo");
    line.remove(1);
    assert_eq!(line.chars, "hXYllo");
    let mut empty = Line::default();
    empty.remove(3);
    assert_eq!(empty.chars, "");
}

#[test]
fn editor_loads_and_saves_lines() {
    let e = Editor::from_filepath("notes.txt".to_string(), None);
    assert_eq!(editor_lines(&e), [""]);
    assert_eq!(e.save("output").0, "notes.txt");
    let e = Editor::from_filepath("notes.txt".to_string(), Some(""));
    assert_eq!(editor_lines(&e), [""]);
    let e = Editor::from_filepath("notes.txt".to_string(), Some("a\nbb\n\nc"));
    assert_eq!(editor_lines(&e), ["a", "bb", "", "c"]);
    assert_eq!(editor_cursor(&e), (0, 0));
    assert_eq!(e.save("output"), ("notes.txt".to_string(), "a\nbb\n\nc\n".to_string()));
}

#[test]
fn editor_saved_lines_load_again() {
    let e = editor_of(&["a", "bb", ""], 0, 0);
    let (path, contents) = e.save("output");
    assert_eq!(path, "output");
    assert_eq!(contents, "a\nbb\n\n");
    let again = Editor::from_filepath(path, Some(&contents));
    assert_eq!(editor_lines(&again), ["a", "bb", ""]);
}
