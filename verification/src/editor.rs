use vstd::prelude::*;
use vstd::string::{StrSliceExecFns, StringExecFns};
use crate::document::{join_lines, lemma_join_push, lines_of, newline_free, no_newline, Doc};
use crate::utf8::push_char;
use crate::vector2::Vector2;

verus! {

/// One line of a document, without its line break.
pub struct Line {
    pub chars: String,
}

impl Default for Line {
    fn default() -> (line: Self)
        ensures
            line.chars@ == Seq::<char>::empty(),
    {
        Line { chars: String::new() }
    }
}

impl Line {
    /// Puts `text` in front of the character at `col`, or at the end of the
    /// line when `col` is its length.
    pub fn insert(&mut self, text: &str, col: usize)
        requires
            col <= old(self).chars@.len(),
        ensures
            final(self).chars@ == old(self).chars@.subrange(0, col as int) + text@ + old(
                self,
            ).chars@.subrange(col as int, old(self).chars@.len() as int),
    {
        let line = self.chars.as_str();
        let n = line.unicode_len();
        let mut chars = line.substring_char(0, col).to_owned();
        chars.append(text);
        chars.append(line.substring_char(col, n));
        self.chars = chars;
    }

    /// Takes the character at `col` out of the line. An empty line stays as
    /// it is.
    pub fn remove(&mut self, col: usize)
        requires
            old(self).chars@.len() == 0 || col < old(self).chars@.len(),
        ensures
            old(self).chars@.len() == 0 ==> final(self).chars@ == old(self).chars@,
            old(self).chars@.len() > 0 ==> final(self).chars@ == old(self).chars@.remove(
                col as int,
            ),
    {
        let line = self.chars.as_str();
        let n = line.unicode_len();
        if n > 0 {
            let mut chars = line.substring_char(0, col).to_owned();
            chars.append(line.substring_char(col + 1, n));
            assert(chars@ =~= old(self).chars@.remove(col as int));
            self.chars = chars;
        }
    }
}

/// What the lines hold, line by line.
pub open spec fn texts(lines: Seq<Line>) -> Seq<Seq<char>> {
    Seq::new(lines.len(), |i: int| lines[i].chars@)
}

/// A document held as one string per line, with a cursor.
pub struct Editor {
    pub filepath: Option<String>,
    pub lines: Vec<Line>,
    pub cursor: Vector2<usize>,
}

impl View for Editor {
    type V = Doc;

    open spec fn view(&self) -> Doc {
        Doc {
            lines: texts(self.lines@),
            column: self.cursor.x as nat,
            line: self.cursor.y as nat,
        }
    }
}

impl Editor {
    /// The cursor stands on a line of the document, inside it or at its end.
    pub open spec fn wf(&self) -> bool {
        self@.wf()
    }

    /// A new document: one empty line, the cursor at its origin, no file.
    pub fn new() -> (b: Self)
        ensures
            b.wf(),
            b@ == Doc::empty(),
            b.filepath is None,
    {
        let mut lines = Vec::new();
        lines.push(Line::default());
        let b = Self { filepath: None, lines, cursor: Vector2::from_scalar(0) };
        assert(b@.lines =~= Doc::empty().lines);
        b
    }

    /// The document for the file at `filepath`, given what was read from it:
    /// its lines when `contents` holds the file's text, and one empty line
    /// when there is no such file yet. The cursor stands at the origin.
    pub fn from_filepath(filepath: String, contents: Option<&str>) -> (b: Self)
        ensures
            b.wf(),
            b.filepath == Some(filepath),
            b@.column == 0,
            b@.line == 0,
            match contents {
                Some(text) => lines_of(b@.lines, text@),
                None => b@.lines == seq![Seq::<char>::empty()],
            },
    {
        let mut lines: Vec<Line> = Vec::new();
        if let Some(text) = contents {
            let mut cur = String::new();
            let chars = text.chars();
            for c in it: chars
                invariant
                    it.seq() == text@,
                    newline_free(texts(lines@)),
                    no_newline(cur@),
                    join_lines(texts(lines@)) + cur@ == text@.subrange(0, it.index()),
            {
                let ghost done = texts(lines@);
                let ghost seen = text@.subrange(0, it.index());
                assert(text@.subrange(0, it.index() + 1) =~= seen.push(c));
                if c == '\n' {
                    lines.push(Line { chars: cur });
                    proof {
                        assert(texts(lines@) =~= done.push(cur@));
                        lemma_join_push(done, cur@);
                    }
                    cur = String::new();
                    assert(join_lines(texts(lines@)) + cur@ =~= seen.push(c));
                } else {
                    let ghost prev = cur@;
                    push_char(&mut cur, c);
                    assert(join_lines(done) + cur@ =~= (join_lines(done) + prev).push(c));
                }
            }
            let ghost done = texts(lines@);
            assert(text@.subrange(0, text@.len() as int) =~= text@);
            if !cur.as_str().is_empty() {
                lines.push(Line { chars: cur });
                proof {
                    assert(texts(lines@) =~= done.push(cur@));
                    lemma_join_push(done, cur@);
                    assert(text@.last() == cur@.last());
                    assert(join_lines(texts(lines@)) =~= text@.push('\n'));
                }
            } else {
                proof {
                    assert(join_lines(done) =~= text@);
                    if text@.len() > 0 {
                        assert(done.len() > 0);
                        assert(text@.last() == '\n');
                    }
                }
            }
        }
        if lines.is_empty() {
            lines.push(Line::default());
            assert(texts(lines@) =~= seq![Seq::<char>::empty()]);
        }
        Self { filepath: Some(filepath), lines, cursor: Vector2::from_scalar(0) }
    }

    /// What saving the document writes, and where: the path of its file, or
    /// `default_path` where it has none, and every line with a line break
    /// behind it.
    pub fn save(&self, default_path: &str) -> (out: (String, String))
        ensures
            out.0@ == match self.filepath {
                Some(p) => p@,
                None => default_path@,
            },
            out.1@ == join_lines(self@.lines),
    {
        let path = match &self.filepath {
            Some(p) => p.clone(),
            None => default_path.to_owned(),
        };
        let mut contents = String::new();
        let mut i: usize = 0;
        while i < self.lines.len()
            invariant
                i <= self.lines.len(),
                contents@ == join_lines(self@.lines.subrange(0, i as int)),
            decreases self.lines.len() - i,
        {
            contents.append(self.lines[i].chars.as_str());
            contents.append("\n");
            proof {
                reveal_strlit("\n");
                let now = self@.lines.subrange(0, i + 1);
                assert(now.drop_last() =~= self@.lines.subrange(0, i as int));
                assert("\n"@ =~= seq!['\n']);
            }
            i += 1;
        }
        assert(self@.lines.subrange(0, i as int) =~= self@.lines);
        (path, contents)
    }

    /// One character to the left, unless the cursor stands at the start of
    /// the line.
    pub fn move_left(&mut self)
        requires
            old(self).wf(),
        ensures
            final(self).wf(),
            final(self)@ == old(self)@.move_left(),
            final(self).filepath == old(self).filepath,
    {
        if self.cursor.x > 0 {
            self.cursor.x -= 1
        }
    }

    /// One character to the right, unless the cursor stands at the end of
    /// the line.
    pub fn move_right(&mut self)
        requires
            old(self).wf(),
        ensures
            final(self).wf(),
            final(self)@ == old(self)@.move_right(),
            final(self).filepath == old(self).filepath,
    {
        if self.cursor.x < self.lines[self.cursor.y].chars.as_str().unicode_len() {
            self.cursor.x += 1;
        }
    }

    /// One line up, unless the cursor stands on the first line; the column
    /// is kept as far as the line above reaches.
    pub fn move_up(&mut self)
        requires
            old(self).wf(),
        ensures
            final(self).wf(),
            final(self)@ == old(self)@.move_up(),
            final(self).filepath == old(self).filepath,
    {
        if self.cursor.y > 0 {
            let above = self.lines[self.cursor.y - 1].chars.as_str().unicode_len();
            if above < self.cursor.x {
                self.cursor.x = above;
            }
            self.cursor.y -= 1;
        }
    }

    /// One line down, unless the cursor stands on the last line; the column
    /// is kept as far as the line below reaches.
    pub fn move_down(&mut self)
        requires
            old(self).wf(),
        ensures
            final(self).wf(),
            final(self)@ == old(self)@.move_down(),
            final(self).filepath == old(self).filepath,
    {
        if self.cursor.y != self.lines.len() - 1 {
            let below = self.lines[self.cursor.y + 1].chars.as_str().unicode_len();
            if below < self.cursor.x {
                self.cursor.x = below;
            }
            self.cursor.y += 1;
        }
    }

    /// Erases backwards: the character in front of the cursor, or at the
    /// start of a line the break that parts it from the line above.
    pub fn backspace(&mut self)
        requires
            old(self).wf(),
        ensures
            final(self).wf(),
            final(self)@ == old(self)@.backspace(),
            final(self).filepath == old(self).filepath,
    {
        if self.cursor.x == 0 && self.cursor.y > 0 {
            let right_side = self.lines.remove(self.cursor.y);
            self.cursor.y -= 1;
            self.cursor.x = self.lines[self.cursor.y].chars.as_str().unicode_len();
            self.lines[self.cursor.y].chars.append(right_side.chars.as_str());
        } else if self.cursor.x > 0 {
            self.cursor.x -= 1;
            self.lines[self.cursor.y].remove(self.cursor.x);
        }
        assert(self@.lines =~= old(self)@.backspace().lines);
    }

    /// Erases forwards: the character at the cursor, or at the end of a line
    /// the break that parts it from the line below.
    pub fn delete(&mut self)
        requires
            old(self).wf(),
        ensures
            final(self).wf(),
            final(self)@ == old(self)@.delete(),
            final(self).filepath == old(self).filepath,
    {
        let here = self.lines[self.cursor.y].chars.as_str().unicode_len();
        if self.cursor.x == here && self.lines.len() - 1 > self.cursor.y {
            let right_side = self.lines.remove(self.cursor.y + 1);
            self.lines[self.cursor.y].chars.append(right_side.chars.as_str());
        } else if self.cursor.x < here {
            self.lines[self.cursor.y].remove(self.cursor.x);
        }
        assert(self@.lines =~= old(self)@.delete().lines);
    }

    /// Cuts the current line at the cursor and opens a new line below with
    /// what stood behind it; the cursor goes to the start of the new line.
    pub fn newline(&mut self)
        requires
            old(self).wf(),
        ensures
            final(self).wf(),
            final(self)@ == old(self)@.newline(),
            final(self).filepath == old(self).filepath,
    {
        let x = self.cursor.x;
        let y = self.cursor.y;
        let line = self.lines[y].chars.as_str();
        let n = line.unicode_len();
        let head = line.substring_char(0, x).to_owned();
        let tail = line.substring_char(x, n).to_owned();
        self.lines[y].chars = head;
        assert(y < self.lines.len());
        self.lines.insert(y + 1, Line { chars: tail });
        self.cursor.x = 0;
        self.cursor.y = y + 1;
        assert(self@.lines =~= old(self)@.newline().lines);
    }

    /// Puts `text` into the current line at the cursor and moves the cursor
    /// behind it.
    pub fn insert_text(&mut self, text: &str)
        requires
            old(self).wf(),
        ensures
            final(self).wf(),
            final(self)@ == old(self)@.insert_text(text@),
            final(self).filepath == old(self).filepath,
    {
        let y = self.cursor.y;
        let before = self.lines[y].chars.as_str().unicode_len();
        self.lines[y].insert(text, self.cursor.x);
        let after = self.lines[y].chars.as_str().unicode_len();
        self.cursor.x += after - before;
        assert(self@.lines =~= old(self)@.insert_text(text@).lines);
    }
}

} // verus!
