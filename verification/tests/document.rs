use red::buffer::{Buffer, Line};
use red::vector::Vector2;

fn buffer_of(lines: &[&str], column: usize, line: usize) -> Buffer {
    let mut b = Buffer::new();
    b.lines = lines.iter().map(|l| Line { chars: l.to_string() }).collect();
    b.cursor = Vector2::new(column, line);
    b
}

fn lines_of(b: &Buffer) -> Vec<String> {
    b.lines.iter().map(|l| l.chars.clone()).collect()
}

fn cursor_of(b: &Buffer) -> (usize, usize) {
    (b.cursor.x, b.cursor.y)
}

#[test]
fn new_buffer_is_one_empty_line() {
    let b = Buffer::new();
    assert_eq!(lines_of(&b), [""]);
    assert_eq!(cursor_of(&b), (0, 0));
    assert_eq!(b.save("output").0, "output");
}

#[test]
fn newline_insert_backspace_at_end_of_line() {
    let mut b = buffer_of(&["abc", "def"], 3, 0);
    b.newline();
    assert_eq!(lines_of(&b), ["abc", "", "def"]);
    assert_eq!(cursor_of(&b), (0, 1));
    b.insert_text("X");
    assert_eq!(lines_of(&b), ["abc", "X", "def"]);
    assert_eq!(cursor_of(&b), (1, 1));
    b.backspace();
    assert_eq!(lines_of(&b), ["abc", "", "def"]);
    assert_eq!(cursor_of(&b), (0, 1));
}

#[test]
fn backspace_at_line_start_joins_with_line_above() {
    let mut b = buffer_of(&["abc", "def"], 0, 1);
    b.backspace();
    assert_eq!(lines_of(&b), ["abcdef"]);
    assert_eq!(cursor_of(&b), (3, 0));
}

#[test]
fn delete_at_line_end_joins_with_line_below() {
    let mut b = buffer_of(&["abc", "def"], 3, 0);
    b.delete();
    assert_eq!(lines_of(&b), ["abcdef"]);
    assert_eq!(cursor_of(&b), (3, 0));
}

#[test]
fn backspace_inside_a_line_removes_one_character() {
    let mut b = buffer_of(&["abc", "def"], 2, 1);
    b.backspace();
    assert_eq!(lines_of(&b), ["abc", "df"]);
    assert_eq!(cursor_of(&b), (1, 1));
}

#[test]
fn backspace_at_origin_does_nothing() {
    let mut b = buffer_of(&["abc", "def"], 0, 0);
    b.backspace();
    assert_eq!(lines_of(&b), ["abc", "def"]);
    assert_eq!(cursor_of(&b), (0, 0));
}

#[test]
fn delete_inside_a_line_removes_one_character() {
    let mut b = buffer_of(&["abc", "def"], 0, 0);
    b.delete();
    assert_eq!(lines_of(&b), ["bc", "def"]);
    assert_eq!(cursor_of(&b), (0, 0));
    let mut b = buffer_of(&["abc", "def"], 2, 1);
    b.delete();
    assert_eq!(lines_of(&b), ["abc", "de"]);
    assert_eq!(cursor_of(&b), (2, 1));
}

#[test]
fn delete_at_end_of_document_does_nothing() {
    let mut b = buffer_of(&["abc", "def"], 3, 1);
    b.delete();
    assert_eq!(lines_of(&b), ["abc", "def"]);
    assert_eq!(cursor_of(&b), (3, 1));
}

#[test]
fn move_left_and_right_stop_at_the_ends_of_the_line() {
    let mut b = buffer_of(&["ab", "cd"], 1, 0);
    b.move_left();
    assert_eq!(cursor_of(&b), (0, 0));
    b.move_left();
    assert_eq!(cursor_of(&b), (0, 0));
    b.move_right();
    b.move_right();
    assert_eq!(cursor_of(&b), (2, 0));
    b.move_right();
    assert_eq!(cursor_of(&b), (2, 0));
    assert_eq!(lines_of(&b), ["ab", "cd"]);
}

#[test]
fn move_up_and_down_keep_the_column_in_the_line() {
    let mut b = buffer_of(&["abcdef", "xy", "0123"], 5, 0);
    b.move_up();
    assert_eq!(cursor_of(&b), (5, 0));
    b.move_down();
    assert_eq!(cursor_of(&b), (2, 1));
    b.move_down();
    assert_eq!(cursor_of(&b), (2, 2));
    b.move_down();
    assert_eq!(cursor_of(&b), (2, 2));
    b.move_right();
    b.move_right();
    assert_eq!(cursor_of(&b), (4, 2));
    b.move_up();
    assert_eq!(cursor_of(&b), (2, 1));
    b.move_up();
    assert_eq!(cursor_of(&b), (2, 0));
}

#[test]
fn newline_in_the_middle_splits_the_line() {
    let mut b = buffer_of(&["abc", "def"], 1, 1);
    b.newline();
    assert_eq!(lines_of(&b), ["abc", "d", "ef"]);
    assert_eq!(cursor_of(&b), (0, 2));
    let mut b = buffer_of(&["abc"], 0, 0);
    b.newline();
    assert_eq!(lines_of(&b), ["", "abc"]);
    assert_eq!(cursor_of(&b), (0, 1));
}

#[test]
fn insert_text_in_the_middle() {
    let mut b = buffer_of(&["abc", "def"], 1, 1);
    b.insert_text("XYZ");
    assert_eq!(lines_of(&b), ["abc", "dXYZef"]);
    assert_eq!(cursor_of(&b), (4, 1));
    b.insert_text("");
    assert_eq!(lines_of(&b), ["abc", "dXYZef"]);
    assert_eq!(cursor_of(&b), (4, 1));
}

#[test]
fn columns_count_characters() {
    let mut b = buffer_of(&["€"], 1, 0);
    b.insert_text("é😀");
    assert_eq!(lines_of(&b), ["€é😀"]);
    assert_eq!(cursor_of(&b), (3, 0));
    assert_eq!(b.char_at_cursor(), None);
    b.move_left();
    assert_eq!(b.char_at_cursor(), Some('😀'));
    b.backspace();
    assert_eq!(lines_of(&b), ["€😀"]);
    assert_eq!(cursor_of(&b), (1, 0));
    b.delete();
    assert_eq!(lines_of(&b), ["€"]);
    assert_eq!(cursor_of(&b), (1, 0));
    b.move_right();
    assert_eq!(cursor_of(&b), (1, 0));
    b.move_left();
    b.newline();
    assert_eq!(lines_of(&b), ["", "€"]);
}

#[test]
fn char_at_cursor_is_none_at_end_of_line() {
    let b = buffer_of(&["abc"], 1, 0);
    assert_eq!(b.char_at_cursor(), Some('b'));
    let b = buffer_of(&["abc"], 3, 0);
    assert_eq!(b.char_at_cursor(), None);
    assert_eq!(Buffer::new().char_at_cursor(), None);
}

#[test]
fn line_insert_and_remove() {
    let mut line = Line { chars: "héllo".to_string() };
    line.insert(2, "XY");
    assert_eq!(line.chars, "héXYllo");
    line.insert(7, "!");
    assert_eq!(line.chars, "héXYllo!");
    line.insert(0, "");
    assert_eq!(line.chars, "héXYllo!");
    line.remove(1);
    assert_eq!(line.chars, "hXYllo!");
    line.remove(6);
    assert_eq!(line.chars, "hXYllo");
    let mut empty = Line::default();
    assert_eq!(empty.chars, "");
    empty.remove(0);
    empty.remove(5);
    assert_eq!(empty.chars, "");
}

#[test]
fn absent_file_gives_one_empty_line() {
    let b = Buffer::from_filepath("notes.txt".to_string(), None);
    assert_eq!(lines_of(&b), [""]);
    assert_eq!(cursor_of(&b), (0, 0));
    assert_eq!(b.save("output").0, "notes.txt");
}

#[test]
fn empty_file_gives_one_empty_line() {
    let b = Buffer::from_filepath("notes.txt".to_string(), Some(""));
    assert_eq!(lines_of(&b), [""]);
    assert_eq!(cursor_of(&b), (0, 0));
}

#[test]
fn file_is_cut_at_line_breaks() {
    let b = Buffer::from_filepath("f".to_string(), Some("a\nbb\nccc\n"));
    assert_eq!(lines_of(&b), ["a", "bb", "ccc"]);
    let b = Buffer::from_filepath("f".to_string(), Some("a\nbb\nccc"));
    assert_eq!(lines_of(&b), ["a", "bb", "ccc"]);
    let b = Buffer::from_filepath("f".to_string(), Some("\n"));
    assert_eq!(lines_of(&b), [""]);
    let b = Buffer::from_filepath("f".to_string(), Some("\n\nx"));
    assert_eq!(lines_of(&b), ["", "", "x"]);
    let b = Buffer::from_filepath("f".to_string(), Some("grüße\n世界"));
    assert_eq!(lines_of(&b), ["grüße", "世界"]);
    assert_eq!(cursor_of(&b), (0, 0));
}

#[test]
fn only_the_line_break_is_stripped() {
    let b = Buffer::from_filepath("f".to_string(), Some("a\r\nb \n"));
    assert_eq!(lines_of(&b), ["a\r", "b "]);
}

#[test]
fn save_writes_each_line_with_a_line_break() {
    let b = buffer_of(&["abc", "", "def"], 0, 0);
    assert_eq!(b.save("output"), ("output".to_string(), "abc\n\ndef\n".to_string()));
    assert_eq!(Buffer::new().save("out.txt"), ("out.txt".to_string(), "\n".to_string()));
}

#[test]
fn save_goes_to_the_file_the_document_came_from() {
    let mut b = Buffer::from_filepath("dir/notes.txt".to_string(), Some("a\n"));
    b.insert_text("b");
    assert_eq!(b.save("output"), ("dir/notes.txt".to_string(), "ba\n".to_string()));
}

#[test]
fn saved_lines_load_again() {
    let b = buffer_of(&["a", "bb", ""], 0, 0);
    let (path, contents) = b.save("output");
    assert_eq!(contents, "a\nbb\n\n");
    let again = Buffer::from_filepath(path, Some(&contents));
    assert_eq!(lines_of(&again), ["a", "bb", ""]);
    assert_eq!(again.save("other"), ("output".to_string(), contents));
}
