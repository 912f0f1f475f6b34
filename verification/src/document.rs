use vstd::prelude::*;

verus! {

/// What a document is, apart from how its lines are stored: the lines in
/// display order and the position of the cursor. Columns count characters.
pub struct Doc {
    pub lines: Seq<Seq<char>>,
    pub column: nat,
    pub line: nat,
}

impl Doc {
    /// The cursor stands on a line of the document, inside it or at its end.
    pub open spec fn wf(self) -> bool {
        &&& self.line < self.lines.len()
        &&& self.column <= self.current().len()
    }

    /// The line the cursor stands on.
    pub open spec fn current(self) -> Seq<char> {
        self.lines[self.line as int]
    }

    /// A document of one empty line, with the cursor at its origin.
    pub open spec fn empty() -> Doc {
        Doc { lines: seq![Seq::<char>::empty()], column: 0, line: 0 }
    }

    /// One character to the left, unless the cursor stands at the start of
    /// the line.
    pub open spec fn move_left(self) -> Doc {
        if self.column > 0 {
            Doc { column: (self.column - 1) as nat, ..self }
        } else {
            self
        }
    }

    /// One character to the right, unless the cursor stands at the end of
    /// the line.
    pub open spec fn move_right(self) -> Doc {
        if self.column < self.current().len() {
            Doc { column: self.column + 1, ..self }
        } else {
            self
        }
    }

    /// One line up, unless the cursor stands on the first line; the column
    /// is kept as far as the line above reaches.
    pub open spec fn move_up(self) -> Doc {
        if self.line > 0 {
            let above = self.lines[self.line - 1];
            Doc {
                column: if self.column <= above.len() {
                    self.column
                } else {
                    above.len()
                },
                line: (self.line - 1) as nat,
                ..self
            }
        } else {
            self
        }
    }

    /// One line down, unless the cursor stands on the last line; the column
    /// is kept as far as the line below reaches.
    pub open spec fn move_down(self) -> Doc {
        if self.line + 1 < self.lines.len() {
            let below = self.lines[self.line as int + 1];
            Doc {
                column: if self.column <= below.len() {
                    self.column
                } else {
                    below.len()
                },
                line: self.line + 1,
                ..self
            }
        } else {
            self
        }
    }

    /// `text` goes into the current line at the cursor, which ends up behind
    /// it.
    pub open spec fn insert_text(self, text: Seq<char>) -> Doc {
        let cur = self.current();
        let col = self.column as int;
        Doc {
            lines: self.lines.update(
                self.line as int,
                cur.subrange(0, col) + text + cur.subrange(col, cur.len() as int),
            ),
            column: self.column + text.len(),
            ..self
        }
    }

    /// The current line is cut at the cursor; what stood behind the cursor
    /// becomes a line of its own right below, and the cursor goes to its
    /// start.
    pub open spec fn newline(self) -> Doc {
        let cur = self.current();
        let col = self.column as int;
        Doc {
            lines: self.lines.update(self.line as int, cur.subrange(0, col)).insert(
                self.line as int + 1,
                cur.subrange(col, cur.len() as int),
            ),
            column: 0,
            line: self.line + 1,
        }
    }

    /// At the start of a line that has one above it, the line is joined to
    /// the end of that one and the cursor stays between the two parts.
    /// Inside a line, the character in front of the cursor goes. At the
    /// origin nothing happens.
    pub open spec fn backspace(self) -> Doc {
        if self.column == 0 && self.line > 0 {
            let above = self.lines[self.line - 1];
            Doc {
                lines: self.lines.remove(self.line as int).update(
                    self.line - 1,
                    above + self.current(),
                ),
                column: above.len(),
                line: (self.line - 1) as nat,
            }
        } else if self.column > 0 {
            Doc {
                lines: self.lines.update(
                    self.line as int,
                    self.current().remove(self.column - 1),
                ),
                column: (self.column - 1) as nat,
                ..self
            }
        } else {
            self
        }
    }

    /// At the end of a line that has one below it, that one is joined to
    /// the end of the current line. Inside a line, the character at the
    /// cursor goes. At the end of the last line nothing happens. The cursor
    /// stays where it is.
    pub open spec fn delete(self) -> Doc {
        if self.column == self.current().len() && self.line + 1 < self.lines.len() {
            Doc {
                lines: self.lines.remove(self.line as int + 1).update(
                    self.line as int,
                    self.current() + self.lines[self.line as int + 1],
                ),
                ..self
            }
        } else if self.column < self.current().len() {
            Doc {
                lines: self.lines.update(
                    self.line as int,
                    self.current().remove(self.column as int),
                ),
                ..self
            }
        } else {
            self
        }
    }

    /// The character the cursor stands on, if it stands on one.
    pub open spec fn char_at_cursor(self) -> Option<char> {
        if self.column < self.current().len() {
            Some(self.current()[self.column as int])
        } else {
            None
        }
    }
}

/// Whatever is done to a document, the cursor stays on one of its lines,
/// inside it or at its end.
pub proof fn lemma_steps_keep_cursor_in_bounds(d: Doc, text: Seq<char>)
    requires
        d.wf(),
    ensures
        d.move_left().wf(),
        d.move_right().wf(),
        d.move_up().wf(),
        d.move_down().wf(),
        d.insert_text(text).wf(),
        d.newline().wf(),
        d.backspace().wf(),
        d.delete().wf(),
{
}

/// The contents of the file that holds `lines`: each line, in order, with a
/// line break behind it.
pub open spec fn join_lines(lines: Seq<Seq<char>>) -> Seq<char>
    decreases lines.len(),
{
    if lines.len() == 0 {
        Seq::empty()
    } else {
        join_lines(lines.drop_last()) + lines.last() + seq!['\n']
    }
}

/// The line holds no line break.
pub open spec fn no_newline(line: Seq<char>) -> bool {
    forall|j: int| 0 <= j < line.len() ==> line[j] != '\n'
}

/// No line holds a line break.
pub open spec fn newline_free(lines: Seq<Seq<char>>) -> bool {
    forall|i: int| 0 <= i < lines.len() ==> #[trigger] no_newline(lines[i])
}

/// The contents of a file grow by one line and its break when a line is
/// added at the end.
pub proof fn lemma_join_push(lines: Seq<Seq<char>>, line: Seq<char>)
    ensures
        join_lines(lines.push(line)) == join_lines(lines) + line + seq!['\n'],
{
    assert(lines.push(line).drop_last() =~= lines);
}

/// `text` with a line break behind its last line, where that was missing.
pub open spec fn terminated(text: Seq<char>) -> Seq<char> {
    if text.len() == 0 || text.last() == '\n' {
        text
    } else {
        text.push('\n')
    }
}

/// `lines` are the lines of a file whose contents are `text`: cut at each
/// line break, the breaks left out. A last line without a break counts; an
/// empty file is one empty line.
pub open spec fn lines_of(lines: Seq<Seq<char>>, text: Seq<char>) -> bool {
    if text.len() == 0 {
        lines == seq![Seq::<char>::empty()]
    } else {
        newline_free(lines) && join_lines(lines) == terminated(text)
    }
}

/// The contents of a file of one line or more end in a line break.
pub proof fn lemma_join_ends_in_newline(lines: Seq<Seq<char>>)
    requires
        lines.len() > 0,
    ensures
        join_lines(lines).len() > 0,
        join_lines(lines).last() == '\n',
{
}

/// The cut in front of the last line of two files with the same contents
/// falls at the same place.
proof fn lemma_last_line_not_shorter(a: Seq<Seq<char>>, b: Seq<Seq<char>>)
    requires
        a.len() > 0,
        b.len() > 0,
        newline_free(a),
        newline_free(b),
        join_lines(a) == join_lines(b),
    ensures
        a.last().len() >= b.last().len(),
{
    let head_a = join_lines(a.drop_last());
    let head_b = join_lines(b.drop_last());
    let whole = join_lines(a);
    assert(whole == head_a + a.last() + seq!['\n']);
    assert(whole == head_b + b.last() + seq!['\n']);
    assert(whole.len() == head_a.len() + a.last().len() + 1);
    assert(whole.len() == head_b.len() + b.last().len() + 1);
    if a.last().len() < b.last().len() {
        let p = head_a.len() - 1;
        let q = p - head_b.len();
        assert(no_newline(b.last()));
        assert(whole[p] == b.last()[q]);
        lemma_join_ends_in_newline(a.drop_last());
        assert(whole[p] == head_a.last());
    }
}

/// Lines without line breaks are known from the contents of their file: no
/// two lists of them give the same contents.
pub proof fn lemma_lines_unique(a: Seq<Seq<char>>, b: Seq<Seq<char>>)
    requires
        newline_free(a),
        newline_free(b),
        join_lines(a) == join_lines(b),
    ensures
        a == b,
    decreases a.len(),
{
    if a.len() == 0 || b.len() == 0 {
        assert(a =~= b);
    } else {
        lemma_last_line_not_shorter(a, b);
        lemma_last_line_not_shorter(b, a);
        let whole = join_lines(a);
        let head_a = join_lines(a.drop_last());
        let head_b = join_lines(b.drop_last());
        let cut = head_a.len() as int;
        assert(whole == head_a + a.last() + seq!['\n']);
        assert(whole == head_b + b.last() + seq!['\n']);
        assert(whole.len() == head_a.len() + a.last().len() + 1);
        assert(whole.len() == head_b.len() + b.last().len() + 1);
        assert(head_a =~= whole.subrange(0, cut));
        assert(head_b =~= whole.subrange(0, cut));
        assert(a.last() =~= whole.subrange(cut, whole.len() - 1));
        assert(b.last() =~= whole.subrange(cut, whole.len() - 1));
        assert(newline_free(a.drop_last()));
        assert(newline_free(b.drop_last()));
        lemma_lines_unique(a.drop_last(), b.drop_last());
        assert(a =~= a.drop_last().push(a.last()));
        assert(b =~= b.drop_last().push(b.last()));
    }
}

/// The lines of a document come back from what saving it writes: whatever
/// is read as the lines of the written contents is the list of lines that
/// was written, as long as none of them holds a line break.
pub proof fn lemma_save_load_round_trip(lines: Seq<Seq<char>>, loaded: Seq<Seq<char>>)
    requires
        lines.len() > 0,
        newline_free(lines),
        lines_of(loaded, join_lines(lines)),
    ensures
        loaded == lines,
{
    lemma_join_ends_in_newline(lines);
    lemma_lines_unique(lines, loaded);
}

} // verus!
