use vstd::prelude::*;
use vstd::pervasive::unreached;
use vstd::slice::slice_subrange;
use vstd::string::{StrSliceExecFns, StringExecFns, StringSliceAdditionalSpecFns};
use vstd::utf8::*;
use crate::document::{join_lines, lemma_join_push, lines_of, newline_free, no_newline, Doc};
use crate::vector::Vector2;
use crate::utf8::{lemma_decode_concat, push_char, splits_text, str_from_utf8, EncodedChar};

verus! {

/// One line of a document, without its line break.
pub struct Line {
    pub chars: String,
}

impl Default for Line {
    fn default() -> (line: Self)
        ensures
            line.chars@ == Seq::<char>::empty(),
    {
        Line { chars: String::new() }
    }
}

impl Line {
    /// Puts `text` in front of the character at `col`, or at the end of the
    /// line when `col` is its length.
    pub fn insert(&mut self, col: usize, text: &str)
        requires
            col <= old(self).chars@.len(),
        ensures
            final(self).chars@ == old(self).chars@.subrange(0, col as int) + text@ + old(
                self,
            ).chars@.subrange(col as int, old(self).chars@.len() as int),
    {
        let line = self.chars.as_str();
        let n = line.unicode_len();
        let mut chars = line.substring_char(0, col).to_owned();
        chars.append(text);
        chars.append(line.substring_char(col, n));
        self.chars = chars;
    }

    /// Takes the character at `col` out of the line. An empty line stays as
    /// it is.
    pub fn remove(&mut self, col: usize)
        requires
            old(self).chars@.len() == 0 || col < old(self).chars@.len(),
        ensures
            old(self).chars@.len() == 0 ==> final(self).chars@ == old(self).chars@,
            old(self).chars@.len() > 0 ==> final(self).chars@ == old(self).chars@.remove(
                col as int,
            ),
    {
        let line = self.chars.as_str();
        let n = line.unicode_len();
        if n > 0 {
            let mut chars = line.substring_char(0, col).to_owned();
            chars.append(line.substring_char(col + 1, n));
            assert(chars@ =~= old(self).chars@.remove(col as int));
            self.chars = chars;
        }
    }
}

/// What the lines hold, line by line.
pub open spec fn texts(lines: Seq<Line>) -> Seq<Seq<char>> {
    Seq::new(lines.len(), |i: int| lines[i].chars@)
}

/// A document held as one string per line, with a cursor.
pub struct Buffer {
    pub filepath: Option<String>,
    pub lines: Vec<Line>,
    pub cursor: Vector2<usize>,
}

impl View for Buffer {
    type V = Doc;

    open spec fn view(&self) -> Doc {
        Doc {
            lines: texts(self.lines@),
            column: self.cursor.x as nat,
            line: self.cursor.y as nat,
        }
    }
}

impl Buffer {
    /// The cursor stands on a line of the document, inside it or at its end.
    pub open spec fn wf(&self) -> bool {
        self@.wf()
    }

    /// A new document: one empty line, the cursor at its origin, no file.
    pub fn new() -> (b: Self)
        ensures
            b.wf(),
            b@ == Doc::empty(),
            b.filepath is None,
    {
        let mut lines = Vec::new();
        lines.push(Line::default());
        let b = Self { filepath: None, lines, cursor: Vector2::from_scalar(0) };
        assert(b@.lines =~= Doc::empty().lines);
        b
    }

    /// The document for the file at `filepath`, given what was read from it:
    /// its lines when `contents` holds the file's text, and one empty line
    /// when there is no such file yet. The cursor stands at the origin.
    pub fn from_filepath(filepath: String, contents: Option<&str>) -> (b: Self)
        ensures
            b.wf(),
            b.filepath == Some(filepath),
            b@.column == 0,
            b@.line == 0,
            match contents {
                Some(text) => lines_of(b@.lines, text@),
                None => b@.lines == seq![Seq::<char>::empty()],
            },
    {
        let mut lines: Vec<Line> = Vec::new();
        if let Some(text) = contents {
            let mut cur = String::new();
            let chars = text.chars();
            for c in it: chars
                invariant
                    it.seq() == text@,
                    newline_free(texts(lines@)),
                    no_newline(cur@),
                    join_lines(texts(lines@)) + cur@ == text@.subrange(0, it.index()),
            {
                let ghost done = texts(lines@);
                let ghost seen = text@.subrange(0, it.index());
                assert(text@.subrange(0, it.index() + 1) =~= seen.push(c));
                if c == '\n' {
                    lines.push(Line { chars: cur });
                    proof {
                        assert(texts(lines@) =~= done.push(cur@));
                        lemma_join_push(done, cur@);
                    }
                    cur = String::new();
                    assert(join_lines(texts(lines@)) + cur@ =~= seen.push(c));
                } else {
                    let ghost prev = cur@;
                    push_char(&mut cur, c);
                    assert(join_lines(done) + cur@ =~= (join_lines(done) + prev).push(c));
                }
            }
            let ghost done = texts(lines@);
            assert(text@.subrange(0, text@.len() as int) =~= text@);
            if !cur.as_str().is_empty() {
                lines.push(Line { chars: cur });
                proof {
                    assert(texts(lines@) =~= done.push(cur@));
                    lemma_join_push(done, cur@);
                    assert(text@.last() == cur@.last());
                    assert(join_lines(texts(lines@)) =~= text@.push('\n'));
                }
            } else {
                proof {
                    assert(join_lines(done) =~= text@);
                    if text@.len() > 0 {
                        assert(done.len() > 0);
                        assert(text@.last() == '\n');
                    }
                }
            }
        }
        if lines.is_empty() {
            lines.push(Line::default());
            assert(texts(lines@) =~= seq![Seq::<char>::empty()]);
        }
        Self { filepath: Some(filepath), lines, cursor: Vector2::from_scalar(0) }
    }

    /// What saving the document writes, and where: the path of its file, or
    /// `default_path` where it has none, and every line with a line break
    /// behind it.
    pub fn save(&self, default_path: &str) -> (out: (String, String))
        ensures
            out.0@ == match self.filepath {
                Some(p) => p@,
                None => default_path@,
            },
            out.1@ == join_lines(self@.lines),
    {
        let path = match &self.filepath {
            Some(p) => p.clone(),
            None => default_path.to_owned(),
        };
        let mut contents = String::new();
        let mut i: usize = 0;
        while i < self.lines.len()
            invariant
                i <= self.lines.len(),
                contents@ == join_lines(self@.lines.subrange(0, i as int)),
            decreases self.lines.len() - i,
        {
            contents.append(self.lines[i].chars.as_str());
            contents.append("\n");
            proof {
                reveal_strlit("\n");
                let now = self@.lines.subrange(0, i + 1);
                assert(now.drop_last() =~= self@.lines.subrange(0, i as int));
                assert("\n"@ =~= seq!['\n']);
            }
            i += 1;
        }
        assert(self@.lines.subrange(0, i as int) =~= self@.lines);
        (path, contents)
    }

    /// One character to the left, unless the cursor stands at the start of
    /// the line.
    pub fn move_left(&mut self)
        requires
            old(self).wf(),
        ensures
            final(self).wf(),
            final(self)@ == old(self)@.move_left(),
            final(self).filepath == old(self).filepath,
    {
        if self.cursor.x > 0 {
            self.cursor.x -= 1
        }
    }

    /// One character to the right, unless the cursor stands at the end of
    /// the line.
    pub fn move_right(&mut self)
        requires
            old(self).wf(),
        ensures
            final(self).wf(),
            final(self)@ == old(self)@.move_right(),
            final(self).filepath == old(self).filepath,
    {
        if self.cursor.x < self.lines[self.cursor.y].chars.as_str().unicode_len() {
            self.cursor.x += 1;
        }
    }

    /// One line up, unless the cursor stands on the first line; the column
    /// is kept as far as the line above reaches.
    pub fn move_up(&mut self)
        requires
            old(self).wf(),
        ensures
            final(self).wf(),
            final(self)@ == old(self)@.move_up(),
            final(self).filepath == old(self).filepath,
    {
        if self.cursor.y > 0 {
            let above = self.lines[self.cursor.y - 1].chars.as_str().unicode_len();
            if above < self.cursor.x {
                self.cursor.x = above;
            }
            self.cursor.y -= 1;
        }
    }

    /// One line down, unless the cursor stands on the last line; the column
    /// is kept as far as the line below reaches.
    pub fn move_down(&mut self)
        requires
            old(self).wf(),
        ensures
            final(self).wf(),
            final(self)@ == old(self)@.move_down(),
            final(self).filepath == old(self).filepath,
    {
        if self.cursor.y != self.lines.len() - 1 {
            let below = self.lines[self.cursor.y + 1].chars.as_str().unicode_len();
            if below < self.cursor.x {
                self.cursor.x = below;
            }
            self.cursor.y += 1;
        }
    }

    /// Erases backwards: the character in front of the cursor, or at the
    /// start of a line the break that parts it from the line above.
    pub fn backspace(&mut self)
        requires
            old(self).wf(),
        ensures
            final(self).wf(),
            final(self)@ == old(self)@.backspace(),
            final(self).filepath == old(self).filepath,
    {
        if self.cursor.x == 0 && self.cursor.y > 0 {
            let right_side = self.lines.remove(self.cursor.y);
            self.cursor.y -= 1;
            self.cursor.x = self.lines[self.cursor.y].chars.as_str().unicode_len();
            self.lines[self.cursor.y].chars.append(right_side.chars.as_str());
        } else if self.cursor.x > 0 {
            self.cursor.x -= 1;
            self.lines[self.cursor.y].remove(self.cursor.x);
        }
        assert(self@.lines =~= old(self)@.backspace().lines);
    }

    /// Erases forwards: the character at the cursor, or at the end of a line
    /// the break that parts it from the line below.
    pub fn delete(&mut self)
        requires
            old(self).wf(),
        ensures
            final(self).wf(),
            final(self)@ == old(self)@.delete(),
            final(self).filepath == old(self).filepath,
    {
        let here = self.lines[self.cursor.y].chars.as_str().unicode_len();
        if self.cursor.x == here && self.lines.len() - 1 > self.cursor.y {
            let right_side = self.lines.remove(self.cursor.y + 1);
            self.lines[self.cursor.y].chars.append(right_side.chars.as_str());
        } else if self.cursor.x < here {
            self.lines[self.cursor.y].remove(self.cursor.x);
        }
        assert(self@.lines =~= old(self)@.delete().lines);
    }

    /// Cuts the current line at the cursor and opens a new line below with
    /// what stood behind it; the cursor goes to the start of the new line.
    pub fn newline(&mut self)
        requires
            old(self).wf(),
        ensures
            final(self).wf(),
            final(self)@ == old(self)@.newline(),
            final(self).filepath == old(self).filepath,
    {
        let x = self.cursor.x;
        let y = self.cursor.y;
        let line = self.lines[y].chars.as_str();
        let n = line.unicode_len();
        let head = line.substring_char(0, x).to_owned();
        let tail = line.substring_char(x, n).to_owned();
        self.lines[y].chars = head;
        assert(y < self.lines.len());
        self.lines.insert(y + 1, Line { chars: tail });
        self.cursor.x = 0;
        self.cursor.y = y + 1;
        assert(self@.lines =~= old(self)@.newline().lines);
    }

    /// Puts `text` into the current line at the cursor and moves the cursor
    /// behind it.
    pub fn insert_text(&mut self, text: &str)
        requires
            old(self).wf(),
        ensures
            final(self).wf(),
            final(self)@ == old(self)@.insert_text(text@),
            final(self).filepath == old(self).filepath,
    {
        let y = self.cursor.y;
        let before = self.lines[y].chars.as_str().unicode_len();
        self.lines[y].insert(self.cursor.x, text);
        let after = self.lines[y].chars.as_str().unicode_len();
        self.cursor.x += after - before;
        assert(self@.lines =~= old(self)@.insert_text(text@).lines);
    }

    /// The character the cursor stands on, if it stands on one.
    pub fn char_at_cursor(&self) -> (c: Option<char>)
        requires
            self.wf(),
        ensures
            c == self@.char_at_cursor(),
    {
        let line = self.lines[self.cursor.y].chars.as_str();
        if self.cursor.x < line.unicode_len() {
            Some(line.get_char(self.cursor.x))
        } else {
            None
        }
    }
}

/// A byte arena with a movable hole at the edit point.
///
/// The live bytes are `buf[0..start]` followed by `buf[end..]`; the bytes in
/// `buf[start..end]` are free space and carry no meaning.
pub struct Gap {
    pub(crate) buf: Vec<u8>,
    pub(crate) len: usize,
    pub(crate) start: usize,
    pub(crate) end: usize,
}

impl View for Gap {
    type V = Seq<u8>;

    /// The live bytes, in order.
    closed spec fn view(&self) -> Seq<u8> {
        self.buf@.subrange(0, self.start as int) + self.buf@.subrange(
            self.end as int,
            self.buf@.len() as int,
        )
    }
}

impl Gap {
    /// Size of the arena in bytes.
    pub closed spec fn cap(&self) -> nat {
        self.buf@.len()
    }

    /// Offset at which the free region begins.
    pub closed spec fn gap_start(&self) -> nat {
        self.start as nat
    }

    /// Offset one past the free region.
    pub closed spec fn gap_end(&self) -> nat {
        self.end as nat
    }

    /// The recorded number of live bytes.
    pub closed spec fn length(&self) -> nat {
        self.len as nat
    }

    /// Number of free bytes.
    pub open spec fn gap_len(&self) -> nat {
        (self.gap_end() - self.gap_start()) as nat
    }

    /// The live bytes in front of the free region.
    pub open spec fn before_gap(&self) -> Seq<u8> {
        self@.subrange(0, self.gap_start() as int)
    }

    /// The live bytes behind the free region.
    pub open spec fn after_gap(&self) -> Seq<u8> {
        self@.subrange(self.gap_start() as int, self@.len() as int)
    }

    /// Each of the two live segments is well-formed UTF-8 by itself.
    pub open spec fn is_text(&self) -> bool {
        valid_utf8(self.before_gap()) && valid_utf8(self.after_gap())
    }

    /// The structural invariant of the arena.
    pub closed spec fn wf(&self) -> bool {
        &&& self.start <= self.end <= self.buf@.len()
        &&& self.len == self.buf@.len() - (self.end - self.start)
    }

    /// What the structural invariant says in terms of the public quantities.
    pub proof fn lemma_wf(&self)
        requires
            self.wf(),
        ensures
            self.gap_start() <= self.gap_end() <= self.cap(),
            self.length() == self.cap() - (self.gap_end() - self.gap_start()),
            self@.len() == self.length(),
            self.gap_start() <= self.length(),
            self@ == self.before_gap() + self.after_gap(),
    {
        assert(self@ =~= self.before_gap() + self.after_gap());
    }

    /// Creates an arena of `cap` bytes, all of them free.
    pub fn new(cap: usize) -> (g: Self)
        ensures
            g.wf(),
            g@ == Seq::<u8>::empty(),
            g.cap() == cap,
            g.gap_start() == 0,
            g.gap_end() == cap,
            g.length() == 0,
    {
        Self { buf: vec![0; cap], len: 0, start: 0, end: cap }
    }

    /// Moves the free region so that it begins at `cursor`, or at the end of
    /// the live bytes when `cursor` lies beyond them. The live bytes keep
    /// their order; only their position around the free region changes.
    pub fn shift_gap_to(&mut self, cursor: usize)
        requires
            old(self).wf(),
        ensures
            shifted(*old(self), *final(self), cursor as nat),
    {
        let gap_len = self.end - self.start;
        let limit = self.buf.len() - gap_len;
        let cursor = if cursor < limit {
            cursor
        } else {
            limit
        };
        if self.start == cursor {
            return ;
        }
        let ghost before = self.buf@;
        let start = self.start;
        let end = self.end;
        if start < cursor {
            let delta = cursor - start;
            let mut i: usize = 0;
            while i < delta
                invariant
                    start <= end,
                    i <= delta,
                    end + delta <= self.buf.len(),
                    self.buf@.len() == before.len(),
                    self.start == start,
                    self.end == end,
                    self.len == old(self).len,
                    forall|j: int| 0 <= j < start ==> self.buf@[j] == before[j],
                    forall|j: int| start <= j < start + i ==> self.buf@[j] == before[j - start + end],
                    forall|j: int| start + i <= j < before.len() ==> self.buf@[j] == before[j],
                decreases delta - i,
            {
                let b = self.buf[end + i];
                self.buf[start + i] = b;
                i += 1;
            }
            self.start = start + delta;
            self.end = end + delta;
        } else {
            let delta = start - cursor;
            let mut k: usize = delta;
            while k > 0
                invariant
                    delta <= start <= end <= self.buf.len(),
                    k <= delta,
                    self.buf@.len() == before.len(),
                    self.start == start,
                    self.end == end,
                    self.len == old(self).len,
                    forall|j: int| 0 <= j < end - delta + k ==> self.buf@[j] == before[j],
                    forall|j: int|
                        end - delta + k <= j < end ==> self.buf@[j] == before[j - end + start],
                    forall|j: int| end <= j < before.len() ==> self.buf@[j] == before[j],
                decreases k,
            {
                k -= 1;
                let b = self.buf[start - delta + k];
                self.buf[end - delta + k] = b;
            }
            self.start = start - delta;
            self.end = end - delta;
        }
        assert(self@ =~= old(self)@);
    }

    /// Makes room for `n_required` more bytes. When the free region already
    /// holds that many, nothing changes; otherwise the live bytes are packed
    /// at the front and the arena is extended to twice what the live bytes
    /// and the request need together.
    pub fn grow(&mut self, n_required: usize)
        requires
            old(self).wf(),
            grown_cap(old(self).cap(), old(self).length(), n_required as nat) <= usize::MAX,
        ensures
            final(self).wf(),
            final(self)@ == old(self)@,
            final(self).length() == old(self).length(),
            final(self).cap() == grown_cap(old(self).cap(), old(self).length(), n_required as nat),
            final(self).gap_len() >= n_required,
            n_required <= old(self).gap_len() ==> *final(self) == *old(self),
            n_required > old(self).gap_len() ==> final(self).gap_start() == old(self).length()
                && final(self).gap_end() == final(self).cap(),
            old(self).is_text() ==> final(self).is_text(),
    {
        let gap_len = self.end - self.start;
        if gap_len >= n_required {
            return ;
        }
        let live = self.buf.len() - gap_len;
        self.shift_gap_to(live);
        let new_cap = 2 * (n_required + live);
        self.buf.resize(new_cap, 0);
        self.end = new_cap;
        proof {
            assert(self@ =~= old(self)@);
            if old(self).is_text() {
                old(self).lemma_wf();
                lemma_decode_concat(old(self).before_gap(), old(self).after_gap());
                assert(self.before_gap() =~= self@);
                assert(self.after_gap() =~= Seq::<u8>::empty());
            }
        }
    }

    /// Inserts `bytes` at offset `at` of the live bytes, or at their end when
    /// `at` lies beyond it, and leaves the free region right behind them.
    fn insert_bytes(&mut self, at: usize, bytes: &[u8])
        requires
            old(self).wf(),
            grown_cap(old(self).cap(), old(self).length(), bytes@.len()) <= usize::MAX,
        ensures
            inserted(*old(self), *final(self), at as nat, bytes@),
    {
        let n = bytes.len();
        self.grow(n);
        self.shift_gap_to(at);
        let ghost mid = *self;
        let start = self.start;
        let mut i: usize = 0;
        while i < n
            invariant
                i <= n,
                n == bytes@.len(),
                start + n <= self.end <= self.buf.len(),
                self.start == start,
                self.end == mid.end,
                self.len == mid.len + i,
                mid.len + (mid.end - start) == mid.buf@.len(),
                self.buf@.len() == mid.buf@.len(),
                forall|j: int| 0 <= j < start ==> self.buf@[j] == mid.buf@[j],
                forall|j: int| start <= j < start + i ==> self.buf@[j] == bytes@[j - start],
                forall|j: int| self.end <= j < self.buf@.len() ==> self.buf@[j] == mid.buf@[j],
            decreases n - i,
        {
            self.buf[start + i] = bytes[i];
            self.len += 1;
            i += 1;
        }
        self.start = start + n;
        assert(self@ =~= splice(old(self)@, mid.start as int, bytes@));
    }

    /// Inserts the character `ch` at byte offset `at`, encoded as UTF-8.
    pub fn insert_char(&mut self, at: usize, ch: char)
        requires
            old(self).wf(),
            grown_cap(old(self).cap(), old(self).length(), encode_utf8(seq![ch]).len())
                <= usize::MAX,
        ensures
            inserted(*old(self), *final(self), at as nat, encode_utf8(seq![ch])),
            inserted_text(*old(self), *final(self), at as nat, seq![ch]),
    {
        let encoded = EncodedChar::new(ch);
        self.insert_bytes(at, encoded.as_bytes());
        proof {
            lemma_inserted_text(*old(self), *self, at as nat, seq![ch]);
        }
    }

    /// Inserts the text `s` at byte offset `at`, all of it in one piece.
    pub fn insert_str(&mut self, at: usize, s: &str)
        requires
            old(self).wf(),
            grown_cap(old(self).cap(), old(self).length(), s.spec_bytes().len()) <= usize::MAX,
        ensures
            inserted(*old(self), *final(self), at as nat, s.spec_bytes()),
            inserted_text(*old(self), *final(self), at as nat, s@),
    {
        self.insert_bytes(at, s.as_bytes());
        proof {
            lemma_inserted_text(*old(self), *self, at as nat, s@);
        }
    }

    /// The two live segments as text, without copying: what stands in front
    /// of the free region, and what stands behind it.
    pub fn to_str(&self) -> (r: (&str, &str))
        requires
            self.wf(),
            self.is_text(),
        ensures
            r.0.spec_bytes() == self.before_gap(),
            r.1.spec_bytes() == self.after_gap(),
            r.0@ == decode_utf8(self.before_gap()),
            r.1@ == decode_utf8(self.after_gap()),
            r.0@ + r.1@ == decode_utf8(self@),
    {
        let whole = self.buf.as_slice();
        let head = slice_subrange(whole, 0, self.start);
        let tail = slice_subrange(whole, self.end, whole.len());
        proof {
            assert(head@ =~= self.before_gap());
            assert(tail@ =~= self.after_gap());
            assert(self@ =~= self.before_gap() + self.after_gap());
            lemma_decode_concat(self.before_gap(), self.after_gap());
        }
        match (str_from_utf8(head), str_from_utf8(tail)) {
            (Some(a), Some(b)) => {
                proof {
                    encode_utf8_decode_utf8(a@);
                    encode_utf8_decode_utf8(b@);
                }
                (a, b)
            },
            _ => unreached(),
        }
    }

    /// Number of live bytes.
    pub fn len(&self) -> (n: usize)
        ensures
            n == self.length(),
    {
        self.len
    }

    /// Size of the arena in bytes.
    pub fn capacity(&self) -> (n: usize)
        ensures
            n == self.cap(),
    {
        self.buf.len()
    }

    /// Offset at which the free region begins.
    pub fn start(&self) -> (n: usize)
        ensures
            n == self.gap_start(),
    {
        self.start
    }

    /// Offset one past the free region.
    pub fn end(&self) -> (n: usize)
        ensures
            n == self.gap_end(),
    {
        self.end
    }
}

/// Where the free region begins after a move to `target`: the target itself,
/// or the end of the live bytes when the target lies beyond them.
pub open spec fn clamp_offset(target: nat, cap: nat, gap_len: nat) -> nat {
    if target <= cap - gap_len {
        target
    } else {
        (cap - gap_len) as nat
    }
}

/// What a move of the free region to `cursor` makes of `pre`: the same
/// bytes in the same arena, with the free region at its new place; and
/// nothing at all is touched when the free region stood there already.
pub open spec fn shifted(pre: Gap, post: Gap, cursor: nat) -> bool {
    &&& post.wf()
    &&& post@ == pre@
    &&& post.cap() == pre.cap()
    &&& post.length() == pre.length()
    &&& post.gap_len() == pre.gap_len()
    &&& post.gap_start() == clamp_offset(cursor, pre.cap(), pre.gap_len())
    &&& pre.gap_start() == post.gap_start() ==> post == pre
}

/// Size of the arena after room for `n` more bytes was asked of one of size
/// `cap` that holds `len` live bytes.
pub open spec fn grown_cap(cap: nat, len: nat, n: nat) -> nat {
    if n <= cap - len {
        cap
    } else {
        2 * (n + len)
    }
}

/// `content` with `bytes` put in at offset `at`.
pub open spec fn splice(content: Seq<u8>, at: int, bytes: Seq<u8>) -> Seq<u8> {
    content.subrange(0, at) + bytes + content.subrange(at, content.len() as int)
}

/// What an insertion of `bytes` at offset `at` makes of `pre`.
pub open spec fn inserted(pre: Gap, post: Gap, at: nat, bytes: Seq<u8>) -> bool {
    let at = clamp_offset(at, pre.cap(), pre.gap_len());
    &&& post.wf()
    &&& post@ == splice(pre@, at as int, bytes)
    &&& post.length() == pre.length() + bytes.len()
    &&& post.cap() == grown_cap(pre.cap(), pre.length(), bytes.len())
    &&& post.gap_start() == at + bytes.len()
    &&& post.length() == post.cap() - (post.gap_end() - post.gap_start())
}

/// What an insertion of the characters `text` at offset `at` makes of the
/// text in `pre`, when `at` does not fall inside a character of it.
pub open spec fn inserted_text(pre: Gap, post: Gap, at: nat, text: Seq<char>) -> bool {
    let at = clamp_offset(at, pre.cap(), pre.gap_len()) as int;
    splits_text(pre@, at) ==> {
        &&& post.is_text()
        &&& decode_utf8(post.before_gap()) == decode_utf8(pre@.subrange(0, at)) + text
        &&& decode_utf8(post.after_gap()) == decode_utf8(pre@.subrange(at, pre@.len() as int))
    }
}

/// An insertion of encoded characters between two characters keeps both
/// live segments well-formed, and puts the characters between the two.
pub proof fn lemma_inserted_text(pre: Gap, post: Gap, at: nat, text: Seq<char>)
    requires
        pre.wf(),
        inserted(pre, post, at, encode_utf8(text)),
    ensures
        inserted_text(pre, post, at, text),
{
    pre.lemma_wf();
    post.lemma_wf();
    let at = clamp_offset(at, pre.cap(), pre.gap_len()) as int;
    if splits_text(pre@, at) {
        let head = pre@.subrange(0, at);
        let tail = pre@.subrange(at, pre@.len() as int);
        let bytes = encode_utf8(text);
        encode_utf8_valid_utf8(text);
        encode_utf8_decode_utf8(text);
        lemma_decode_concat(head, bytes);
        assert(post.before_gap() =~= head + bytes);
        assert(post.after_gap() =~= tail);
    }
}

/// Moving the free region to the same offset twice in a row leaves the
/// arena exactly as the first move left it.
pub proof fn lemma_shift_gap_idempotent(pre: Gap, mid: Gap, post: Gap, cursor: nat)
    requires
        pre.wf(),
        shifted(pre, mid, cursor),
        shifted(mid, post, cursor),
    ensures
        post == mid,
{
}

/// Text inserted into an empty arena is what the two live segments read
/// back, one after the other.
pub proof fn lemma_insert_into_empty(pre: Gap, post: Gap, at: nat, text: Seq<char>)
    requires
        pre.wf(),
        pre.length() == 0,
        inserted(pre, post, at, encode_utf8(text)),
    ensures
        post.is_text(),
        post@ == encode_utf8(text),
        decode_utf8(post.before_gap()) + decode_utf8(post.after_gap()) == text,
{
    pre.lemma_wf();
    lemma_inserted_text(pre, post, at, text);
    assert(pre@.subrange(0, 0) =~= Seq::<u8>::empty());
    assert(post@ =~= encode_utf8(text));
    assert(decode_utf8(Seq::<u8>::empty()) =~= Seq::<char>::empty());
    assert(decode_utf8(post.before_gap()) + decode_utf8(post.after_gap()) =~= text);
}

/// An insertion that does not fit into the free region makes the arena
/// twice as large as the old and the new bytes need together, and the bytes
/// that were there before stay as they were, in their order, on both sides
/// of the new ones.
pub proof fn lemma_growth_keeps_content(pre: Gap, post: Gap, at: nat, bytes: Seq<u8>)
    requires
        pre.wf(),
        inserted(pre, post, at, bytes),
        bytes.len() > pre.gap_len(),
    ensures
        post.cap() == 2 * (bytes.len() + pre.length()),
        post.cap() > pre.cap(),
        ({
            let at = clamp_offset(at, pre.cap(), pre.gap_len()) as int;
            &&& post@.subrange(0, at) == pre@.subrange(0, at)
            &&& post@.subrange(at + bytes.len(), post@.len() as int) == pre@.subrange(
                at,
                pre@.len() as int,
            )
        }),
{
    pre.lemma_wf();
    post.lemma_wf();
    let at = clamp_offset(at, pre.cap(), pre.gap_len()) as int;
    assert(post@.subrange(0, at) =~= pre@.subrange(0, at));
    assert(post@.subrange(at + bytes.len(), post@.len() as int) =~= pre@.subrange(
        at,
        pre@.len() as int,
    ));
}

} // verus!

