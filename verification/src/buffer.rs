use crate::editor::Location;
use crate::line::{
    clamped, lemma_boundary_at_join, lemma_slice_of_ascii, lemma_slice_width,
    lemma_slices_rejoin, slice, Line,
};
use crate::text::{lemma_encode_concat, push_char};
use std::ops::Range;
use vstd::prelude::*;
use vstd::string::*;
use vstd::utf8::*;

verus! {

broadcast use vstd::utf8::group_utf8_lib;

/// An edit was addressed to a row that the document cannot offer. It tells of
/// a corrupted cursor, not of a user's mistake, and the edit is not carried
/// out.
#[derive(Copy, Clone, Debug, PartialEq, Eq, Structural)]
pub enum InvariantViolation {
    /// The row lies beyond the document (for an insertion or a split, beyond
    /// the append position).
    RowOutOfBounds,
    /// A deletion at the end of the last row: there is no following row to
    /// merge.
    NoFollowingLine,
}

/// What a save has to put on disk: the whole text of the document and the
/// path it belongs to.
#[derive(Clone, Debug, PartialEq, Eq)]
pub struct FileWrite {
    pub path: String,
    pub contents: String,
}

/// The length of a row's text in bytes.
pub open spec fn width(line: Seq<char>) -> int {
    encode_utf8(line).len() as int
}

/// A row with `character` spliced in at byte offset `x`.
pub open spec fn line_with(line: Seq<char>, x: int, character: char) -> Seq<char> {
    slice(line, 0, x) + seq![character] + slice(line, x, width(line))
}

/// A row without the byte at offset `x`.
pub open spec fn line_without(line: Seq<char>, x: int) -> Seq<char> {
    slice(line, 0, x) + slice(line, x + 1, width(line))
}

/// The rows after inserting `character` at `location`: a new row of one
/// character at the append position, a splice into the addressed row
/// otherwise.
pub open spec fn inserted(lines: Seq<Seq<char>>, location: Location, character: char) -> Seq<
    Seq<char>,
>
    recommends
        location.y <= lines.len(),
{
    if location.y == lines.len() {
        lines.push(seq![character])
    } else {
        lines.update(
            location.y as int,
            line_with(lines[location.y as int], location.x as int, character),
        )
    }
}

/// Whether a deletion at `location` has to merge the following row into the
/// addressed one.
pub open spec fn merges(lines: Seq<Seq<char>>, location: Location) -> bool
    recommends
        location.y < lines.len(),
{
    location.x == width(lines[location.y as int])
}

/// The rows after deleting at `location`: at the end of a row the following
/// row is joined to it, elsewhere one byte leaves the row.
pub open spec fn deleted(lines: Seq<Seq<char>>, location: Location) -> Seq<Seq<char>>
    recommends
        location.y < lines.len(),
        merges(lines, location) ==> location.y + 1 < lines.len(),
{
    let y = location.y as int;
    if merges(lines, location) {
        lines.update(y, lines[y] + lines[y + 1]).remove(y + 1)
    } else {
        lines.update(y, line_without(lines[y], location.x as int))
    }
}

/// Whether a deletion at `location` has anything to delete: the cursor does
/// not stand at the end of the last row, nor behind it.
pub open spec fn can_delete(lines: Seq<Seq<char>>, location: Location) -> bool {
    location.x < columns_at(lines, location.y as int) || location.y + 1 < lines.len()
}

/// The rows after splitting at `location`: the addressed row keeps what
/// stands before byte offset `x` and a new row after it takes the rest; at the
/// append position an empty row is added.
pub open spec fn split(lines: Seq<Seq<char>>, location: Location) -> Seq<Seq<char>>
    recommends
        location.y <= lines.len(),
{
    let y = location.y as int;
    if location.y == lines.len() {
        lines.push(Seq::empty())
    } else {
        lines.update(y, slice(lines[y], 0, location.x as int)).insert(
            y + 1,
            slice(lines[y], location.x as int, width(lines[y])),
        )
    }
}

/// The length in bytes of row `index`, and 0 where there is no such row.
pub open spec fn columns_at(lines: Seq<Seq<char>>, index: int) -> int {
    if 0 <= index < lines.len() {
        width(lines[index])
    } else {
        0
    }
}

/// Where the text of a row that starts at byte `start` stops, given the line
/// feed at byte `feed` that ends it: before the line feed, and before a
/// carriage return that stands directly in front of it.
pub open spec fn row_stop(bytes: Seq<u8>, start: int, feed: int) -> int {
    if start < feed && bytes[feed - 1] == 13u8 {
        feed - 1
    } else {
        feed
    }
}

/// The rows of `text` that are still to come when the current row starts at
/// byte `start` and the bytes before `at` hold no line feed of it. A row ends
/// at a line feed; what follows the last line feed is a row of its own unless
/// it is empty.
pub open spec fn rows_from(text: Seq<char>, start: int, at: int) -> Seq<Seq<char>>
    decreases encode_utf8(text).len() - at,
{
    let bytes = encode_utf8(text);
    if at < 0 || at >= bytes.len() {
        if start < bytes.len() {
            seq![slice(text, start, bytes.len() as int)]
        } else {
            Seq::empty()
        }
    } else if bytes[at] == 10u8 {
        seq![slice(text, start, row_stop(bytes, start, at))] + rows_from(text, at + 1, at + 1)
    } else {
        rows_from(text, start, at + 1)
    }
}

/// The rows that a file's text holds.
pub open spec fn rows_of(text: Seq<char>) -> Seq<Seq<char>> {
    rows_from(text, 0, 0)
}

/// The text of a file that holds `lines`: each row followed by a line feed.
pub open spec fn saved_text(lines: Seq<Seq<char>>) -> Seq<char>
    decreases lines.len(),
{
    if lines.len() == 0 {
        Seq::empty()
    } else {
        saved_text(lines.drop_last()) + lines.last() + seq!['\n']
    }
}

/// The document: its rows in order, the file it belongs to, and whether it
/// was edited.
pub struct Buffer {
    pub save_file_path: Option<String>,
    pub lines: Vec<Line>,
    pub is_modified: bool,
}

impl View for Buffer {
    type V = Seq<Seq<char>>;

    open spec fn view(&self) -> Seq<Seq<char>> {
        Seq::new(self.lines@.len(), |i: int| self.lines@[i]@)
    }
}

impl Default for Buffer {
    fn default() -> (res: Buffer)
        ensures
            res@ == Seq::<Seq<char>>::empty(),
            res.save_file_path is None,
            !res.is_modified,
    {
        let res = Buffer { save_file_path: None, lines: Vec::new(), is_modified: false };
        assert(res@ =~= Seq::<Seq<char>>::empty());
        res
    }
}

impl Buffer {
    /// The document that the file at `file_path` holds, given the file's
    /// text.
    pub fn load(file_path: &str, file_contents: &str) -> (res: Buffer)
        ensures
            res@ == rows_of(file_contents@),
            res.save_file_path is Some,
            res.save_file_path->0@ == file_path@,
            !res.is_modified,
    {
        let whole = Line::from(file_contents);
        let bytes = file_contents.as_bytes();
        let len = bytes.len();
        let mut lines: Vec<Line> = Vec::new();
        let mut start: usize = 0;
        let mut at: usize = 0;
        while at < len
            invariant
                whole@ == file_contents@,
                bytes@ == encode_utf8(file_contents@),
                len == bytes@.len(),
                start <= at <= len,
                Seq::new(lines@.len(), |i: int| lines@[i]@) + rows_from(
                    file_contents@,
                    start as int,
                    at as int,
                ) == rows_of(file_contents@),
            decreases len - at,
        {
            let ghost before = Seq::new(lines@.len(), |i: int| lines@[i]@);
            if bytes[at] == 10u8 {
                let stop = if start < at && bytes[at - 1] == 13u8 {
                    at - 1
                } else {
                    at
                };
                let string = whole.get(Range { start, end: stop });
                proof {
                    let rest = rows_from(file_contents@, at + 1, at + 1);
                    assert(rows_from(file_contents@, start as int, at as int) == seq![string@]
                        + rest);
                    assert(before.push(string@) + rest =~= before + (seq![string@] + rest));
                }
                lines.push(Line { string });
                assert(Seq::new(lines@.len(), |i: int| lines@[i]@) =~= before.push(string@));
                at = at + 1;
                start = at;
            } else {
                at = at + 1;
            }
        }
        let ghost before = Seq::new(lines@.len(), |i: int| lines@[i]@);
        if start < len {
            let string = whole.get(Range { start, end: len });
            lines.push(Line { string });
            assert(Seq::new(lines@.len(), |i: int| lines@[i]@) =~= before + seq![string@]);
        } else {
            assert(before + Seq::<Seq<char>>::empty() =~= before);
        }
        Buffer { save_file_path: Some(file_path.to_owned()), lines, is_modified: false }
    }

    /// What saving the document has to write, and where; nothing for a
    /// document without a file.
    pub fn save_file(&self) -> (res: Option<FileWrite>)
        ensures
            self.save_file_path is None ==> res is None,
            self.save_file_path is Some ==> res is Some && res->0.path@
                == self.save_file_path->0@ && res->0.contents@ == saved_text(self@),
    {
        match &self.save_file_path {
            None => None,
            Some(path) => {
                let mut contents = String::new();
                let mut index: usize = 0;
                while index < self.lines.len()
                    invariant
                        index <= self.lines@.len(),
                        contents@ == saved_text(self@.subrange(0, index as int)),
                    decreases self.lines@.len() - index,
                {
                    proof {
                        let upto = self@.subrange(0, index + 1);
                        assert(upto.drop_last() =~= self@.subrange(0, index as int));
                        assert(upto.last() == self@[index as int]);
                    }
                    contents.append(self.lines[index].string.as_str());
                    push_char(&mut contents, '\n');
                    index = index + 1;
                }
                assert(self@.subrange(0, index as int) =~= self@);
                Some(FileWrite { path: path.clone(), contents })
            },
        }
    }

    pub fn is_empty(&self) -> (res: bool)
        ensures
            res == (self@.len() == 0),
    {
        self.lines.len() == 0
    }

    pub fn get_line(&self, index: usize) -> (res: Option<&Line>)
        ensures
            index < self@.len() ==> res is Some && res->0@ == self@[index as int],
            index >= self@.len() ==> res is None,
    {
        if index < self.lines.len() {
            Some(&self.lines[index])
        } else {
            None
        }
    }

    pub fn get_num_rows(&self) -> (res: usize)
        ensures
            res == self@.len(),
    {
        self.lines.len()
    }

    pub fn get_num_columns(&self, index: usize) -> (res: usize)
        ensures
            res == columns_at(self@, index as int),
    {
        match self.get_line(index) {
            Some(line) => line.len(),
            None => 0,
        }
    }

    /// Inserts `character` at `location`. Fails, changing nothing, where the
    /// row lies beyond the append position.
    pub fn insert_character(&mut self, location: Location, character: char) -> (res: Result<
        (),
        InvariantViolation,
    >)
        ensures
            location.y <= old(self)@.len() ==> res is Ok,
            location.y > old(self)@.len() ==> res == Err::<(), InvariantViolation>(
                InvariantViolation::RowOutOfBounds,
            ),
            res is Err ==> *final(self) == *old(self),
            res is Ok ==> final(self)@ == inserted(old(self)@, location, character),
            res is Ok ==> final(self).is_modified,
            final(self).save_file_path == old(self).save_file_path,
    {
        let Location { x, y } = location;
        if y == self.lines.len() {
            let mut string = String::new();
            push_char(&mut string, character);
            assert(string@ =~= seq![character]);
            self.lines.push(Line { string });
        } else if y < self.lines.len() {
            let line = &self.lines[y];
            let mut string = line.get(Range { start: 0, end: x });
            let tail = line.get(Range { start: x, end: line.len() });
            push_char(&mut string, character);
            string.append(tail.as_str());
            assert(string@ =~= line_with(line@, x as int, character));
            self.lines.set(y, Line { string });
        } else {
            return Err(InvariantViolation::RowOutOfBounds);
        }
        self.is_modified = true;
        assert(self@ =~= inserted(old(self)@, location, character));
        Ok(())
    }

    /// Deletes at `location`. Fails, changing nothing, where the row does not
    /// exist or the deletion stands at the end of the last row.
    pub fn delete_character(&mut self, location: Location) -> (res: Result<(), InvariantViolation>)
        ensures
            location.y >= old(self)@.len() ==> res == Err::<(), InvariantViolation>(
                InvariantViolation::RowOutOfBounds,
            ),
            location.y < old(self)@.len() && merges(old(self)@, location) && location.y + 1
                >= old(self)@.len() ==> res == Err::<(), InvariantViolation>(
                InvariantViolation::NoFollowingLine,
            ),
            location.y < old(self)@.len() && (merges(old(self)@, location) ==> location.y + 1
                < old(self)@.len()) ==> res is Ok,
            res is Err ==> *final(self) == *old(self),
            res is Ok ==> final(self)@ == deleted(old(self)@, location),
            res is Ok ==> final(self).is_modified,
            final(self).save_file_path == old(self).save_file_path,
    {
        let Location { x, y } = location;
        if y >= self.lines.len() {
            return Err(InvariantViolation::RowOutOfBounds);
        }
        let line = &self.lines[y];
        let len = line.len();
        if x == len {
            if y + 1 >= self.lines.len() {
                return Err(InvariantViolation::NoFollowingLine);
            }
            let mut string = line.get(Range { start: 0, end: x });
            proof {
                lemma_whole_slice(line@);
            }
            let next = self.lines.remove(y + 1);
            string.append(next.string.as_str());
            self.lines.set(y, Line { string });
        } else {
            let mut string = line.get(Range { start: 0, end: x });
            let tail = if x < len {
                line.get(Range { start: x + 1, end: len })
            } else {
                String::new()
            };
            string.append(tail.as_str());
            self.lines.set(y, Line { string });
        }
        self.is_modified = true;
        assert(self@ =~= deleted(old(self)@, location));
        Ok(())
    }

    /// Splits the row at `location`. Fails, changing nothing, where the row
    /// lies beyond the append position.
    pub fn enter(&mut self, location: Location) -> (res: Result<(), InvariantViolation>)
        ensures
            location.y <= old(self)@.len() ==> res is Ok,
            location.y > old(self)@.len() ==> res == Err::<(), InvariantViolation>(
                InvariantViolation::RowOutOfBounds,
            ),
            res is Err ==> *final(self) == *old(self),
            res is Ok ==> final(self)@ == split(old(self)@, location),
            res is Ok ==> final(self).is_modified,
            final(self).save_file_path == old(self).save_file_path,
    {
        let Location { x, y } = location;
        if y < self.lines.len() {
            let line = &self.lines[y];
            let head = line.get(Range { start: 0, end: x });
            let tail = line.get(Range { start: x, end: line.len() });
            self.lines.set(y, Line { string: head });
            self.lines.insert(y + 1, Line { string: tail });
        } else if y == self.lines.len() {
            self.lines.push(Line { string: String::new() });
        } else {
            return Err(InvariantViolation::RowOutOfBounds);
        }
        self.is_modified = true;
        assert(self@ =~= split(old(self)@, location));
        Ok(())
    }
}

/// A character that takes one byte, spliced in at a character boundary,
/// leaves when the byte at its place is deleted; so does a longer one that
/// was added at the end of the row. The rows are then what they were.
pub proof fn lemma_insert_then_delete(
    lines: Seq<Seq<char>>,
    location: Location,
    character: char,
)
    requires
        location.y < lines.len(),
        location.x <= width(lines[location.y as int]),
        is_char_boundary(encode_utf8(lines[location.y as int]), location.x as int),
        width(seq![character]) == 1 || location.x == width(lines[location.y as int]),
    ensures
        width(line_with(lines[location.y as int], location.x as int, character)) == width(
            lines[location.y as int],
        ) + width(seq![character]),
        width(seq![character]) >= 1,
        deleted(inserted(lines, location, character), location) == lines,
{
    let x = location.x as int;
    let y = location.y as int;
    let line = lines[y];
    let bytes = encode_utf8(line);
    let w = width(line);
    let head = slice(line, 0, x);
    let tail = slice(line, x, w);
    let one = seq![character];
    let fresh = line_with(line, x, character);
    let a = bytes.subrange(0, x);
    let c = encode_utf8(one);
    let t = bytes.subrange(x, w);
    is_char_boundary_start_end_of_seq(bytes);
    lemma_slice_width(line, 0, x);
    lemma_slice_width(line, x, w);
    lemma_slices_rejoin(line, x);
    lemma_encode_concat(head, one);
    lemma_encode_concat(head + one, tail);
    let joined = encode_utf8(fresh);
    assert(joined == a + c + t);
    assert(c.len() >= 1) by {
        encode_utf8_first_scalar(one);
    }
    lemma_boundary_at_join(a, c + t);
    assert(a + (c + t) =~= joined);
    lemma_boundary_at_join(a + c, t);
    is_char_boundary_start_end_of_seq(joined);
    // what stands before the new character is the old head
    assert(joined.subrange(0, x) =~= a);
    assert(slice(fresh, 0, x) == head);
    // what stands behind it is the old tail
    if c.len() == 1 {
        assert(joined.subrange(x + 1, joined.len() as int) =~= t);
        assert(slice(fresh, x + 1, width(fresh)) == tail);
    } else {
        assert(t.len() == 0);
        assert(tail =~= Seq::<char>::empty()) by {
            lemma_whole_slice(line);
            assert(head == line);
            assert(head + tail == line);
            assert((head + tail).len() == head.len() + tail.len());
        }
        assert(!is_char_boundary(joined, x + 1)) by {
            lemma_inside_character(one, 1);
            is_char_boundary_iff_not_is_continuation_byte(c, 1);
            is_char_boundary_iff_not_is_continuation_byte(joined, x + 1);
            assert(joined[x + 1] == c[1]);
        }
        assert(slice(fresh, x + 1, width(fresh)) == tail);
    }
    assert(line_without(fresh, x) == line);
    assert(deleted(inserted(lines, location, character), location) =~= lines);
}

/// In the UTF-8 form of a single character, no character starts after the
/// first byte and before the end.
pub proof fn lemma_inside_character(one: Seq<char>, index: int)
    requires
        one.len() == 1,
        0 < index < encode_utf8(one).len(),
    ensures
        !is_char_boundary(encode_utf8(one), index),
{
    let bytes = encode_utf8(one);
    encode_utf8_first_scalar(one);
    assert(one.drop_first() =~= Seq::<char>::empty());
    assert(encode_utf8(one.drop_first()) =~= Seq::<u8>::empty());
    assert(bytes =~= encode_scalar(one[0] as u32));
    assert(pop_first_scalar(bytes) =~= Seq::<u8>::empty());
    reveal_with_fuel(is_char_boundary, 3);
}

/// Splitting a row and then deleting at the end of the first of the two rows
/// gives the rows back, provided the split did not fall inside a character.
pub proof fn lemma_split_then_merge(lines: Seq<Seq<char>>, location: Location)
    requires
        location.y < lines.len(),
        is_char_boundary(
            encode_utf8(lines[location.y as int]),
            clamped(location.x as int, width(lines[location.y as int])),
        ),
    ensures
        width(split(lines, location)[location.y as int]) <= location.x,
        deleted(
            split(lines, location),
            Location {
                x: width(split(lines, location)[location.y as int]) as usize,
                y: location.y,
            },
        ) == lines,
{
    let x = location.x as int;
    let y = location.y as int;
    let line = lines[y];
    let w = width(line);
    let head = slice(line, 0, x);
    let tail = slice(line, x, w);
    let bytes = encode_utf8(line);
    is_char_boundary_start_end_of_seq(bytes);
    lemma_slice_width(line, 0, x);
    if x <= w {
        lemma_slices_rejoin(line, x);
    } else {
        lemma_whole_slice(line);
        assert(head == line);
        assert(tail =~= Seq::<char>::empty());
        assert(head + tail =~= line);
    }
    let halves = split(lines, location);
    let end = Location { x: width(halves[y]) as usize, y: location.y };
    assert(halves[y] == head);
    assert(halves[y + 1] == tail);
    assert(merges(halves, end));
    assert(deleted(halves, end) =~= lines);
}

/// In a row of ASCII characters the edits are those of a sequence of
/// characters: a splice at `x` inserts at index `x`, a deletion at `x` removes
/// the character at index `x`, and a split at `x` cuts before index `x`.
pub proof fn lemma_edits_of_ascii(line: Seq<char>, x: int, character: char)
    requires
        is_ascii_chars(line),
        0 <= x <= line.len(),
    ensures
        width(line) == line.len(),
        line_with(line, x, character) == line.insert(x, character),
        x < line.len() ==> line_without(line, x) == line.remove(x),
        slice(line, 0, x) == line.subrange(0, x),
        slice(line, x, width(line)) == line.subrange(x, line.len() as int),
{
    lemma_slice_of_ascii(line, 0, x);
    lemma_slice_of_ascii(line, x, line.len() as int);
    lemma_slice_of_ascii(line, x + 1, line.len() as int);
    assert(line_with(line, x, character) =~= line.insert(x, character));
    if x < line.len() {
        assert(line_without(line, x) =~= line.remove(x));
    }
}

/// A row that a file can hold as it is: its UTF-8 form has no line feed in
/// it and no carriage return at its end.
pub open spec fn plain(row: Seq<char>) -> bool {
    let bytes = encode_utf8(row);
    &&& forall|index: int| 0 <= index < bytes.len() ==> bytes[index] != 10u8
    &&& bytes.len() > 0 ==> bytes.last() != 13u8
}

/// The text of a file that holds the rows of `first` and then those of
/// `second` is the text for `first` followed by the text for `second`.
pub proof fn lemma_saved_text_concat(first: Seq<Seq<char>>, second: Seq<Seq<char>>)
    ensures
        saved_text(first + second) == saved_text(first) + saved_text(second),
    decreases second.len(),
{
    if second.len() == 0 {
        assert(first + second =~= first);
        assert(saved_text(first) + saved_text(second) =~= saved_text(first));
    } else {
        lemma_saved_text_concat(first, second.drop_last());
        assert((first + second).drop_last() =~= first + second.drop_last());
        assert(saved_text(first + second) =~= saved_text(first) + saved_text(second));
    }
}

/// Scanning a text from inside a plain row that a line feed ends finds that
/// row, and what follows the line feed.
proof fn lemma_scan_row(
    text: Seq<char>,
    before: Seq<char>,
    row: Seq<char>,
    after: Seq<char>,
    at: int,
)
    requires
        text == before + row + seq!['\n'] + after,
        plain(row),
        width(before) <= at <= width(before) + width(row),
    ensures
        rows_from(text, width(before), at) == seq![row] + rows_from(
            text,
            width(before) + width(row) + 1,
            width(before) + width(row) + 1,
        ),
    decreases width(before) + width(row) - at,
{
    let feed = seq!['\n'];
    let bytes = encode_utf8(text);
    let p = encode_utf8(before);
    let r = encode_utf8(row);
    let n = encode_utf8(feed);
    let q = encode_utf8(after);
    lemma_encode_concat(before, row);
    lemma_encode_concat(before + row, feed);
    lemma_encode_concat(before + row + feed, after);
    assert(n.len() == 1 && n[0] == 10u8) by {
        assert(is_ascii_chars(feed));
        is_ascii_chars_encode_utf8(feed);
        assert(feed[0] as u8 == 10u8);
    }
    let start = p.len() as int;
    let end = start + r.len();
    assert(bytes == p + r + n + q);
    if at < end {
        assert(bytes[at] == r[at - start]);
        lemma_scan_row(text, before, row, after, at + 1);
    } else {
        assert(bytes[end] == n[0]);
        if start < end {
            assert(bytes[end - 1] == r.last());
        }
        assert(row_stop(bytes, start, end) == end);
        valid_utf8_concat(r, n);
        valid_utf8_concat(r + n, q);
        valid_utf8_concat(p, r);
        valid_utf8_concat(n, q);
        lemma_boundary_at_join(p, r + n + q);
        assert(p + (r + n + q) =~= bytes);
        lemma_boundary_at_join(p + r, n + q);
        assert((p + r) + (n + q) =~= bytes);
        assert(bytes.subrange(start, end) =~= r);
        assert(slice(text, start, end) == row);
    }
}

/// Loading what was saved finds the rows from row `from` on where the text
/// of the rows before them ends.
proof fn lemma_rows_from_saved(lines: Seq<Seq<char>>, from: int)
    requires
        forall|index: int| 0 <= index < lines.len() ==> plain(#[trigger] lines[index]),
        0 <= from <= lines.len(),
    ensures
        rows_from(
            saved_text(lines),
            width(saved_text(lines.subrange(0, from))),
            width(saved_text(lines.subrange(0, from))),
        ) == lines.subrange(from, lines.len() as int),
    decreases lines.len() - from,
{
    let text = saved_text(lines);
    let feed = seq!['\n'];
    let done = lines.subrange(0, from);
    let before = saved_text(done);
    if from == lines.len() {
        assert(done =~= lines);
        assert(lines.subrange(from, lines.len() as int) =~= Seq::<Seq<char>>::empty());
    } else {
        let row = lines[from];
        let rest = lines.subrange(from + 1, lines.len() as int);
        let after = saved_text(rest);
        let one = seq![row];
        assert(saved_text(one) =~= row + feed) by {
            assert(one.drop_last() =~= Seq::<Seq<char>>::empty());
            assert(saved_text(one.drop_last()) =~= Seq::<char>::empty());
        }
        assert(lines =~= done + one + rest);
        lemma_saved_text_concat(done + one, rest);
        lemma_saved_text_concat(done, one);
        assert(text =~= before + row + feed + after);
        lemma_scan_row(text, before, row, after, width(before));
        assert(lines.subrange(0, from + 1) =~= done + one);
        lemma_encode_concat(before, row);
        lemma_encode_concat(before + row, feed);
        assert(encode_utf8(feed).len() == 1) by {
            assert(is_ascii_chars(feed));
            is_ascii_chars_encode_utf8(feed);
        }
        assert(saved_text(done + one) =~= before + row + feed);
        lemma_rows_from_saved(lines, from + 1);
        assert(seq![row] + rest =~= lines.subrange(from, lines.len() as int));
    }
}

/// Saving a document and loading what was saved gives the same rows,
/// provided every row is plain.
pub proof fn lemma_save_then_load(lines: Seq<Seq<char>>)
    requires
        forall|index: int| 0 <= index < lines.len() ==> plain(#[trigger] lines[index]),
    ensures
        rows_of(saved_text(lines)) == lines,
{
    lemma_rows_from_saved(lines, 0);
    assert(lines.subrange(0, 0) =~= Seq::<Seq<char>>::empty());
    assert(saved_text(lines.subrange(0, 0)) =~= Seq::<char>::empty());
    assert(lines.subrange(0, lines.len() as int) =~= lines);
}

/// Extracting a row from its start to its length gives the row back.
pub proof fn lemma_whole_slice(line: Seq<char>)
    ensures
        slice(line, 0, width(line)) == line,
{
    let bytes = encode_utf8(line);
    assert(bytes.subrange(0, bytes.len() as int) =~= bytes);
}

} // verus!
