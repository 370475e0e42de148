use crate::buffer::{
    can_delete, columns_at, deleted, inserted, lemma_insert_then_delete, saved_text, split, width,
    Buffer, FileWrite,
};
use crate::editor::{DocumentStatus, DocumentStatusView, Location};
use crate::editorcommand::{Direction, EditorCommand};
use crate::line::{byte_len, clamped, lemma_slice_width, slice, Line};
use crate::terminal::{CommandView, Position, Size, Terminal};
use crate::uicomponent::UIComponent;
use std::ops::Range;
use vstd::prelude::*;
use vstd::utf8::*;
use vstd::view::View as _;

verus! {

/// The position in row `y` that is nearest to column `x`.
pub open spec fn reclamped(lines: Seq<Seq<char>>, x: int, y: int) -> Location {
    Location { x: clamped(x, columns_at(lines, y)) as usize, y: y as usize }
}

/// Where a cursor at `at` stands after one move in `direction`, in a document
/// of rows `lines` and with pages of `rows` rows.
pub open spec fn moved(lines: Seq<Seq<char>>, at: Location, rows: usize, direction: Direction)
    -> Location {
    match direction {
        Direction::Up => reclamped(
            lines,
            at.x as int,
            if at.y > 0 {
                at.y - 1
            } else {
                0
            },
        ),
        Direction::Down => reclamped(lines, at.x as int, clamped(at.y + 1, lines.len() as int)),
        Direction::Left => if at.x > 0 {
            Location { x: (at.x - 1) as usize, y: at.y }
        } else if at.y > 0 {
            Location { x: columns_at(lines, at.y - 1) as usize, y: (at.y - 1) as usize }
        } else {
            at
        },
        Direction::Right => if at.x < columns_at(lines, at.y as int) {
            Location { x: (at.x + 1) as usize, y: at.y }
        } else if at.y < lines.len() {
            Location { x: 0, y: (at.y + 1) as usize }
        } else {
            at
        },
        Direction::PageUp => reclamped(
            lines,
            at.x as int,
            if at.y > rows {
                at.y - rows
            } else {
                0
            },
        ),
        Direction::PageDown => reclamped(
            lines,
            at.x as int,
            clamped(at.y + rows, lines.len() as int),
        ),
        Direction::Home => Location { x: 0, y: at.y },
        Direction::End => Location { x: columns_at(lines, at.y as int) as usize, y: at.y },
    }
}

/// Where a window of `extent` cells that started at `top` starts once the
/// cursor stands at `at`, moving the window as little as possible: back to
/// the cursor if the cursor is before it, forward by the overshoot if the
/// cursor is behind it. A window without cells starts at the cursor.
pub open spec fn scrolled_axis(top: int, at: int, extent: int) -> int {
    if at < top || extent <= 0 {
        at
    } else if at >= top + extent {
        at - extent + 1
    } else {
        top
    }
}

/// The number of rows left for the document once the bottom margin is taken
/// off.
pub open spec fn visible_rows(size: Size, bottom_margin: usize) -> int {
    if size.num_rows > bottom_margin {
        size.num_rows - bottom_margin
    } else {
        0
    }
}

/// The window's corner after scrolling to the cursor at `at`.
pub open spec fn scrolled(top_left: Location, at: Location, size: Size, bottom_margin: usize)
    -> Location {
    Location {
        x: scrolled_axis(top_left.x as int, at.x as int, size.num_columns as int) as usize,
        y: scrolled_axis(
            top_left.y as int,
            at.y as int,
            visible_rows(size, bottom_margin),
        ) as usize,
    }
}

/// The state of a view as plain values.
pub struct ViewModel {
    pub lines: Seq<Seq<char>>,
    pub file_path: Option<Seq<char>>,
    pub is_modified: bool,
    pub needs_redraw: bool,
    pub size: Size,
    pub top_left: Location,
    pub location: Location,
    pub bottom_margin: usize,
}

impl ViewModel {
    /// The cursor stands in the document, at most one past a row's end and at
    /// most one row past the last, and not before the window's corner.
    pub open spec fn wf(self) -> bool {
        &&& self.location.y <= self.lines.len()
        &&& self.location.x <= columns_at(self.lines, self.location.y as int)
        &&& self.top_left.x <= self.location.x
        &&& self.top_left.y <= self.location.y
    }

    /// The cursor stands inside the window.
    pub open spec fn in_view(self) -> bool {
        &&& self.top_left.x <= self.location.x < self.top_left.x + self.size.num_columns
        &&& self.top_left.y <= self.location.y < self.top_left.y + visible_rows(
            self.size,
            self.bottom_margin,
        )
    }

    /// The window has cells.
    pub open spec fn roomy(self) -> bool {
        self.size.num_columns > 0 && visible_rows(self.size, self.bottom_margin) > 0
    }

    /// The state with the cursor at `at` and the window scrolled to it. A
    /// redraw is due if the window moved.
    pub open spec fn placed(self, at: Location) -> ViewModel {
        let top_left = scrolled(self.top_left, at, self.size, self.bottom_margin);
        ViewModel {
            location: at,
            top_left,
            needs_redraw: self.needs_redraw || top_left != self.top_left,
            ..self
        }
    }

    /// The state after one cursor move.
    pub open spec fn step(self, direction: Direction) -> ViewModel {
        self.placed(moved(self.lines, self.location, self.size.num_rows, direction))
    }

    /// The state with its rows replaced by an edit.
    pub open spec fn edited(self, lines: Seq<Seq<char>>) -> ViewModel {
        ViewModel { lines, is_modified: true, needs_redraw: true, ..self }
    }

    /// The state after typing `character`: it is inserted at the cursor, and
    /// the cursor moves right.
    pub open spec fn typed(self, character: char) -> ViewModel {
        self.edited(inserted(self.lines, self.location, character)).step(Direction::Right)
    }

    /// The state after a deletion at the cursor, which does nothing at the
    /// very end of the document. The cursor stays, but never behind the end
    /// of its row.
    pub open spec fn erased(self) -> ViewModel {
        if can_delete(self.lines, self.location) {
            let lines = deleted(self.lines, self.location);
            self.edited(lines).placed(
                reclamped(lines, self.location.x as int, self.location.y as int),
            )
        } else {
            self
        }
    }

    /// The state after a line break at the cursor: the row is split, and the
    /// cursor moves to the start of the new row.
    pub open spec fn broken(self) -> ViewModel {
        self.edited(split(self.lines, self.location)).step(Direction::Down).step(Direction::Home)
    }

    /// The state after a backspace: a move left and a deletion there, or
    /// nothing at the start of the document.
    pub open spec fn rubbed(self) -> ViewModel {
        if self.location.x > 0 || self.location.y > 0 {
            self.step(Direction::Left).erased()
        } else {
            self
        }
    }

    /// The state after `command`.
    pub open spec fn apply(self, command: EditorCommand) -> ViewModel {
        match command {
            EditorCommand::Move(direction) => self.step(direction),
            EditorCommand::Insert(character) => self.typed(character),
            EditorCommand::Backspace => self.rubbed(),
            EditorCommand::Delete => self.erased(),
            EditorCommand::Enter => self.broken(),
            _ => self,
        }
    }

    /// What the status bar is to show of this state.
    pub open spec fn status(self) -> DocumentStatusView {
        DocumentStatusView {
            file_path: self.file_path,
            current_line: clamped(self.location.y + 1, self.lines.len() as int) as usize,
            total_lines: self.lines.len() as usize,
            is_modified: self.is_modified,
        }
    }

    /// Where the cursor stands on the screen, counted from the window's
    /// corner.
    pub open spec fn cursor(self) -> Position {
        Position {
            row: (self.location.y - self.top_left.y) as usize,
            column: (self.location.x - self.top_left.x) as usize,
        }
    }

    /// What the window shows in its row `row`: the part of the document's row
    /// that lies between the window's left and right edge, or a tilde below
    /// the document.
    pub open spec fn row_text(self, row: int) -> Seq<char> {
        if self.top_left.y + row < self.lines.len() {
            slice(
                self.lines[self.top_left.y + row],
                self.top_left.x as int,
                self.top_left.x + self.size.num_columns,
            )
        } else {
            placeholder()
        }
    }

    /// The commands that draw the first `count` rows of the document's window
    /// from screen row `start_row` down.
    pub open spec fn content_rows(self, start_row: usize, count: int) -> Seq<CommandView>
        decreases count,
    {
        if count <= 0 {
            Seq::empty()
        } else {
            self.content_rows(start_row, count - 1) + row_drawing(
                (start_row + count - 1) as usize,
                self.row_text(count - 1),
            )
        }
    }

    /// Whether the view greets instead of showing a document: the document is
    /// empty and has no file.
    pub open spec fn greets(self) -> bool {
        self.lines.len() == 0 && self.file_path is None
    }

    /// The commands that draw the view from screen row `start_row` down.
    pub open spec fn drawing(self, start_row: usize) -> Seq<CommandView> {
        let rows = visible_rows(self.size, self.bottom_margin);
        if self.greets() {
            placeholder_rows(start_row, rows) + banner_drawing(
                start_row,
                rows,
                self.size.num_columns,
            )
        } else {
            self.content_rows(start_row, rows)
        }
    }
}

/// Every row, and the number of rows, is short enough for the machine to
/// count. This holds of every document that a buffer holds.
pub open spec fn storable(lines: Seq<Seq<char>>) -> bool {
    &&& lines.len() <= usize::MAX
    &&& forall|index: int| 0 <= index < lines.len() ==> #[trigger] width(lines[index]) <= usize::MAX
}

/// Whether `command` moves the cursor or edits the document in the state
/// `model`, and so scrolls the window to the cursor.
pub open spec fn scrolls(model: ViewModel, command: EditorCommand) -> bool {
    match command {
        EditorCommand::Move(_) => true,
        EditorCommand::Insert(_) => true,
        EditorCommand::Enter => true,
        EditorCommand::Backspace => model.location.x > 0 || model.location.y > 0,
        EditorCommand::Delete => can_delete(model.lines, model.location),
        _ => false,
    }
}

/// After any move the cursor stands in the document and inside the window,
/// provided the window has cells.
pub proof fn lemma_move_keeps_cursor_in_view(model: ViewModel, direction: Direction)
    requires
        model.wf(),
        storable(model.lines),
        model.roomy(),
    ensures
        model.step(direction).wf(),
        model.step(direction).in_view(),
{
}

/// A move to the right at the last position of the document, the start of
/// the row behind the last, leaves the cursor where it is, and a second such
/// move changes nothing at all. Where the cursor is inside the window, the
/// first changes nothing either.
pub proof fn lemma_right_at_end_is_idempotent(model: ViewModel)
    requires
        model.wf(),
        model.location.y == model.lines.len(),
    ensures
        model.step(Direction::Right).location == model.location,
        model.step(Direction::Right).step(Direction::Right) == model.step(Direction::Right),
        model.in_view() ==> model.step(Direction::Right) == model,
{
}

/// A move to the left at the start of the document changes nothing.
pub proof fn lemma_left_at_origin_is_idempotent(model: ViewModel)
    requires
        model.wf(),
        model.location == (Location { x: 0, y: 0 }),
    ensures
        model.step(Direction::Left) == model,
        model.step(Direction::Left).step(Direction::Left) == model.step(Direction::Left),
{
}

/// Typing a character of one byte at a character boundary, or any character
/// at the end of a row, and then pressing backspace, with the cursor just
/// right of where the character went in, gives back the rows and puts the
/// cursor where it was.
pub proof fn lemma_type_then_backspace(model: ViewModel, character: char)
    requires
        model.wf(),
        storable(inserted(model.lines, model.location, character)),
        model.location.y < model.lines.len(),
        is_char_boundary(
            encode_utf8(model.lines[model.location.y as int]),
            model.location.x as int,
        ),
        width(seq![character]) == 1 || model.location.x == width(
            model.lines[model.location.y as int],
        ),
    ensures
        model.typed(character).location == (Location {
            x: (model.location.x + 1) as usize,
            y: model.location.y,
        }),
        model.typed(character).rubbed().lines == model.lines,
        model.typed(character).rubbed().location == model.location,
{
    lemma_insert_then_delete(model.lines, model.location, character);
    let after = model.typed(character);
    assert(after.lines == inserted(model.lines, model.location, character));
    assert(width(after.lines[model.location.y as int]) <= usize::MAX);
    assert(after.location.x == model.location.x + 1);
    let back = after.step(Direction::Left);
    assert(back.location == model.location);
    assert(can_delete(back.lines, back.location));
}

/// A view without rows draws nothing.
pub proof fn lemma_no_rows_no_drawing(model: ViewModel, start_row: usize)
    requires
        visible_rows(model.size, model.bottom_margin) == 0,
    ensures
        model.drawing(start_row) == Seq::<CommandView>::empty(),
{
    assert(model.drawing(start_row) =~= Seq::<CommandView>::empty());
}

/// What stands in a screen row that shows no text.
pub open spec fn placeholder() -> Seq<char> {
    seq!['~']
}

/// The greeting.
pub open spec fn banner() -> Seq<char> {
    "termedit Editor -- v0.1.0"@
}

/// The commands that draw one screen row: go to its start, clear it, print.
pub open spec fn row_drawing(row: usize, text: Seq<char>) -> Seq<CommandView> {
    seq![
        CommandView::MoveCursorTo(Position { row, column: 0 }),
        CommandView::ClearLine,
        CommandView::Print(text),
    ]
}

/// The commands that fill `count` screen rows from `start_row` down with
/// placeholders.
pub open spec fn placeholder_rows(start_row: usize, count: int) -> Seq<CommandView>
    decreases count,
{
    if count <= 0 {
        Seq::empty()
    } else {
        placeholder_rows(start_row, count - 1) + row_drawing(
            (start_row + count - 1) as usize,
            placeholder(),
        )
    }
}

/// The greeting as it fits a screen of `columns` columns: cut to one column
/// less than the screen has.
pub open spec fn banner_text(columns: usize) -> Seq<char> {
    slice(banner(), 0, columns - 1)
}

/// The commands that draw the greeting into a window of `rows` rows and
/// `columns` columns that starts at screen row `start_row`: centred, a third
/// of the way down. Nothing is drawn into a window without rows.
pub open spec fn banner_drawing(start_row: usize, rows: int, columns: usize) -> Seq<CommandView> {
    if rows <= 0 {
        Seq::empty()
    } else {
        let text = banner_text(columns);
        seq![
            CommandView::MoveCursorTo(
                Position {
                    row: (start_row + rows / 3) as usize,
                    column: ((columns - encode_utf8(text).len()) / 2) as usize,
                },
            ),
            CommandView::Print(text),
        ]
    }
}

/// One axis of the minimal scroll.
pub fn scroll_axis(top: usize, at: usize, extent: usize) -> (res: usize)
    ensures
        res == scrolled_axis(top as int, at as int, extent as int),
{
    if at < top || extent == 0 {
        at
    } else if at - top >= extent {
        at - extent + 1
    } else {
        top
    }
}

/// The window onto the document: the document itself, the cursor, and the
/// part of the document that the screen shows.
pub struct View {
    pub buffer: Buffer,
    pub needs_redraw: bool,
    pub size: Size,
    pub top_left: Location,
    pub location: Location,
    pub bottom_margin: usize,
}

impl Default for View {
    fn default() -> (res: View)
        ensures
            res.model() == (ViewModel { needs_redraw: false, ..View::fresh(0) }),
            res.wf(),
    {
        View {
            buffer: Buffer::default(),
            needs_redraw: false,
            size: Size::default(),
            top_left: Location::default(),
            location: Location::default(),
            bottom_margin: 0,
        }
    }
}

impl View {
    /// The state of this view as plain values.
    pub open spec fn model(&self) -> ViewModel {
        ViewModel {
            lines: self.buffer@,
            file_path: match self.buffer.save_file_path {
                Some(path) => Some(path@),
                None => None,
            },
            is_modified: self.buffer.is_modified,
            needs_redraw: self.needs_redraw,
            size: self.size,
            top_left: self.top_left,
            location: self.location,
            bottom_margin: self.bottom_margin,
        }
    }

    /// The cursor stands in the document and not before the window's corner.
    pub open spec fn wf(&self) -> bool {
        self.model().wf()
    }

    /// The state of a new view: an empty document without a file, the cursor
    /// and the window at the origin, a redraw due.
    pub open spec fn fresh(bottom_margin: usize) -> ViewModel {
        ViewModel {
            lines: Seq::empty(),
            file_path: None,
            is_modified: false,
            needs_redraw: true,
            size: Size { num_rows: 30, num_columns: 120 },
            top_left: Location { x: 0, y: 0 },
            location: Location { x: 0, y: 0 },
            bottom_margin,
        }
    }

    pub fn new(bottom_margin: usize) -> (res: View)
        ensures
            res.model() == View::fresh(bottom_margin),
            res.wf(),
    {
        View {
            buffer: Buffer::default(),
            needs_redraw: true,
            size: Size::default(),
            top_left: Location::default(),
            location: Location::default(),
            bottom_margin,
        }
    }

    /// Shows the document that the file at `file_path` holds, given the
    /// file's text, with the cursor at its start.
    pub fn load(&mut self, file_path: &str, file_contents: &str)
        ensures
            final(self).model() == (ViewModel {
                lines: crate::buffer::rows_of(file_contents@),
                file_path: Some(file_path@),
                is_modified: false,
                needs_redraw: true,
                top_left: Location { x: 0, y: 0 },
                location: Location { x: 0, y: 0 },
                ..old(self).model()
            }),
            final(self).wf(),
    {
        self.buffer = Buffer::load(file_path, file_contents);
        self.top_left = Location::default();
        self.location = Location::default();
        self.needs_redraw = true;
    }

    pub fn get_status(&self) -> (res: DocumentStatus)
        ensures
            res@ == self.model().status(),
    {
        let total_lines = self.buffer.get_num_rows();
        let file_path = match &self.buffer.save_file_path {
            Some(path) => Some(path.clone()),
            None => None,
        };
        DocumentStatus {
            file_path,
            current_line: if self.location.y < total_lines {
                self.location.y + 1
            } else {
                total_lines
            },
            total_lines,
            is_modified: self.buffer.is_modified,
        }
    }

    /// Carries out `command`. A save changes nothing; it hands back what is
    /// to be written.
    pub fn handle_command(&mut self, command: EditorCommand) -> (res: Option<FileWrite>)
        requires
            old(self).wf(),
        ensures
            final(self).wf(),
            final(self).model() == old(self).model().apply(command),
            old(self).model().roomy() && (old(self).model().in_view() || scrolls(
                old(self).model(),
                command,
            )) ==> final(self).model().in_view(),
            command != EditorCommand::Save || old(self).model().file_path is None
                ==> res is None,
            command == EditorCommand::Save && old(self).model().file_path is Some ==> res is Some
                && Some(res->0.path@) == old(self).model().file_path && res->0.contents@
                == saved_text(old(self).model().lines),
    {
        match command {
            EditorCommand::Move(direction) => {
                self.move_cursor(&direction);
                None
            },
            EditorCommand::Insert(character) => {
                self.add_character(character);
                None
            },
            EditorCommand::Backspace => {
                if self.location.x > 0 || self.location.y > 0 {
                    self.move_cursor(&Direction::Left);
                    self.delete_character();
                }
                None
            },
            EditorCommand::Delete => {
                self.delete_character();
                None
            },
            EditorCommand::Enter => {
                self.enter();
                None
            },
            EditorCommand::Save => self.save_file(),
            _ => None,
        }
    }

    /// Moves the cursor once in `direction` and scrolls the window to it.
    pub fn move_cursor(&mut self, direction: &Direction)
        ensures
            final(self).model() == old(self).model().step(*direction),
            final(self).buffer == old(self).buffer,
            old(self).wf() ==> final(self).wf(),
            old(self).wf() && old(self).model().roomy() ==> final(self).model().in_view(),
    {
        let num_rows = self.size.num_rows;
        let total = self.buffer.get_num_rows();
        let Location { x, y } = self.location;
        match direction {
            Direction::Up => {
                let row = if y > 0 {
                    y - 1
                } else {
                    0
                };
                self.reclamp(x, row);
            },
            Direction::Down => {
                let row = if y < total {
                    y + 1
                } else {
                    total
                };
                self.reclamp(x, row);
            },
            Direction::Left => {
                if x > 0 {
                    self.location.x = x - 1;
                } else if y > 0 {
                    self.location.y = y - 1;
                    self.location.x = self.buffer.get_num_columns(y - 1);
                }
            },
            Direction::Right => {
                if x < self.buffer.get_num_columns(y) {
                    self.location.x = x + 1;
                } else if y < total {
                    self.location.y = y + 1;
                    self.location.x = 0;
                }
            },
            Direction::PageUp => {
                let row = if y > num_rows {
                    y - num_rows
                } else {
                    0
                };
                self.reclamp(x, row);
            },
            Direction::PageDown => {
                let row = if y <= total && num_rows < total - y {
                    y + num_rows
                } else {
                    total
                };
                self.reclamp(x, row);
            },
            Direction::Home => {
                self.location.x = 0;
            },
            Direction::End => {
                self.location.x = self.buffer.get_num_columns(y);
            },
        }
        self.update_cursor_position();
    }

    /// Puts the cursor into row `y`, as near to column `x` as the row allows.
    fn reclamp(&mut self, x: usize, y: usize)
        ensures
            final(self).location == reclamped(old(self).buffer@, x as int, y as int),
            *final(self) == (View { location: final(self).location, ..*old(self) }),
    {
        let columns = self.buffer.get_num_columns(y);
        self.location = Location {
            x: if x < columns {
                x
            } else {
                columns
            },
            y,
        };
    }

    /// Scrolls the window to the cursor, moving it as little as possible, and
    /// asks for a redraw if it moved.
    pub fn update_cursor_position(&mut self)
        ensures
            final(self).model() == old(self).model().placed(old(self).location),
            final(self).buffer == old(self).buffer,
    {
        let rows = if self.size.num_rows > self.bottom_margin {
            self.size.num_rows - self.bottom_margin
        } else {
            0
        };
        let x = scroll_axis(self.top_left.x, self.location.x, self.size.num_columns);
        let y = scroll_axis(self.top_left.y, self.location.y, rows);
        if x != self.top_left.x || y != self.top_left.y {
            self.needs_redraw = true;
        }
        self.top_left = Location { x, y };
    }

    /// Where the cursor stands on the screen.
    pub fn get_cursor_position(&self) -> (res: Position)
        requires
            self.wf(),
        ensures
            res == self.model().cursor(),
    {
        Position {
            row: self.location.y - self.top_left.y,
            column: self.location.x - self.top_left.x,
        }
    }

    /// Inserts `character` at the cursor and moves the cursor right.
    pub fn add_character(&mut self, character: char)
        requires
            old(self).wf(),
        ensures
            final(self).wf(),
            final(self).model() == old(self).model().typed(character),
    {
        match self.buffer.insert_character(self.location, character) {
            Ok(()) => {
                self.needs_redraw = true;
                self.move_cursor(&Direction::Right);
            },
            // the cursor stands in the document: the edit is not refused
            Err(_) => {
                assert(false);
            },
        }
    }

    /// Deletes at the cursor, unless the cursor stands at the very end of the
    /// document.
    pub fn delete_character(&mut self)
        requires
            old(self).wf(),
        ensures
            final(self).wf(),
            final(self).model() == old(self).model().erased(),
    {
        let Location { x, y } = self.location;
        if x < self.buffer.get_num_columns(y) || (y < self.buffer.get_num_rows() && y + 1
            < self.buffer.get_num_rows()) {
            match self.buffer.delete_character(self.location) {
                Ok(()) => {
                    self.needs_redraw = true;
                    self.reclamp(x, y);
                    self.update_cursor_position();
                },
                // the cursor stands in the document: the edit is not refused
                Err(_) => {
                    assert(false);
                },
            }
        }
    }

    /// Breaks the row at the cursor and moves the cursor to the start of the
    /// new row.
    pub fn enter(&mut self)
        requires
            old(self).wf(),
        ensures
            final(self).wf(),
            final(self).model() == old(self).model().broken(),
    {
        match self.buffer.enter(self.location) {
            Ok(()) => {
                self.needs_redraw = true;
                self.move_cursor(&Direction::Down);
                self.move_cursor(&Direction::Home);
            },
            // the cursor stands in the document: the edit is not refused
            Err(_) => {
                assert(false);
            },
        }
    }

    /// Draws the rows of the document that the window shows, and a
    /// placeholder in each row below the document.
    pub fn render_lines(&self, start_row: usize, terminal: &mut Terminal)
        requires
            self.fits(start_row),
        ensures
            final(terminal)@ == old(terminal)@ + self.model().content_rows(
                start_row,
                visible_rows(self.size, self.bottom_margin),
            ),
    {
        let rows = if self.size.num_rows > self.bottom_margin {
            self.size.num_rows - self.bottom_margin
        } else {
            0
        };
        let Location { x, y } = self.top_left;
        let columns = self.size.num_columns;
        let total = self.buffer.get_num_rows();
        let mut row: usize = 0;
        assert(terminal@ + self.model().content_rows(start_row, 0) =~= terminal@);
        while row < rows
            invariant
                row <= rows,
                start_row + rows <= usize::MAX,
                total == self.buffer@.len(),
                x == self.top_left.x,
                y == self.top_left.y,
                columns == self.size.num_columns,
                terminal@ == old(terminal)@ + self.model().content_rows(start_row, row as int),
            decreases rows - row,
        {
            let ghost before = terminal@;
            let ghost text = self.model().row_text(row as int);
            terminal.move_cursor_to(Position { row: start_row + row, column: 0 });
            terminal.clear_line();
            if y < total && row < total - y {
                let line = &self.buffer.lines[y + row];
                let len = line.len();
                let end = if x <= len && columns < len - x {
                    x + columns
                } else {
                    len
                };
                let shown = line.get(Range { start: x, end });
                terminal.print(shown.as_str());
            } else {
                proof {
                    reveal_strlit("~");
                }
                assert("~"@ =~= placeholder());
                terminal.print("~");
            }
            assert(terminal@ =~= before + row_drawing((start_row + row) as usize, text));
            row = row + 1;
            assert(terminal@ =~= old(terminal)@ + self.model().content_rows(start_row, row as int));
        }
    }

    /// Fills the window with placeholders and draws the greeting over them.
    pub fn render_welcome_message(&self, start_row: usize, terminal: &mut Terminal)
        requires
            self.fits(start_row),
        ensures
            final(terminal)@ == old(terminal)@ + placeholder_rows(
                start_row,
                visible_rows(self.size, self.bottom_margin),
            ) + banner_drawing(
                start_row,
                visible_rows(self.size, self.bottom_margin),
                self.size.num_columns,
            ),
    {
        let rows = if self.size.num_rows > self.bottom_margin {
            self.size.num_rows - self.bottom_margin
        } else {
            0
        };
        let mut row: usize = 0;
        assert(terminal@ + placeholder_rows(start_row, 0) =~= terminal@);
        while row < rows
            invariant
                row <= rows,
                start_row + rows <= usize::MAX,
                terminal@ == old(terminal)@ + placeholder_rows(start_row, row as int),
            decreases rows - row,
        {
            let ghost before = terminal@;
            terminal.move_cursor_to(Position { row: start_row + row, column: 0 });
            terminal.clear_line();
            proof {
                reveal_strlit("~");
            }
            assert("~"@ =~= placeholder());
            terminal.print("~");
            assert(terminal@ =~= before + row_drawing((start_row + row) as usize, placeholder()));
            row = row + 1;
            assert(terminal@ =~= old(terminal)@ + placeholder_rows(start_row, row as int));
        }
        self.draw_welcome_message(start_row, terminal);
    }

    /// Draws the greeting, cut to the window's width and centred, a third of
    /// the way down the window. A window without rows gets none.
    pub fn draw_welcome_message(&self, start_row: usize, terminal: &mut Terminal)
        requires
            self.fits(start_row),
        ensures
            final(terminal)@ == old(terminal)@ + banner_drawing(
                start_row,
                visible_rows(self.size, self.bottom_margin),
                self.size.num_columns,
            ),
    {
        let rows = if self.size.num_rows > self.bottom_margin {
            self.size.num_rows - self.bottom_margin
        } else {
            0
        };
        let columns = self.size.num_columns;
        if rows == 0 {
            assert(terminal@ + Seq::<CommandView>::empty() =~= terminal@);
            return ;
        }
        let limit = if columns > 0 {
            columns - 1
        } else {
            0
        };
        let greeting = Line::from("termedit Editor -- v0.1.0");
        let message = greeting.get(Range { start: 0, end: limit });
        let len = byte_len(message.as_str());
        proof {
            lemma_slice_width(banner(), 0, limit as int);
            assert(slice(banner(), 0, limit as int) == slice(banner(), 0, columns - 1));
        }
        let ghost before = terminal@;
        terminal.move_cursor_to(
            Position { row: start_row + rows / 3, column: (columns - len) / 2 },
        );
        terminal.print(message.as_str());
        assert(terminal@ =~= before + banner_drawing(start_row, rows as int, columns));
    }

    /// What saving the document has to write, and where; nothing for a
    /// document without a file.
    pub fn save_file(&self) -> (res: Option<FileWrite>)
        ensures
            self.model().file_path is None ==> res is None,
            self.model().file_path is Some ==> res is Some && Some(res->0.path@)
                == self.model().file_path && res->0.contents@ == saved_text(self.model().lines),
    {
        self.buffer.save_file()
    }
}

impl UIComponent for View {
    open spec fn redraw_pending(&self) -> bool {
        self.needs_redraw
    }

    open spec fn with_redraw(&self, needs_redraw: bool) -> View {
        View { needs_redraw, ..*self }
    }

    open spec fn with_size(&self, size: Size) -> View {
        View { size, ..*self }
    }

    open spec fn fits(&self, start_row: usize) -> bool {
        start_row + visible_rows(self.size, self.bottom_margin) <= usize::MAX
    }

    open spec fn drawing(&self, start_row: usize) -> Seq<CommandView> {
        self.model().drawing(start_row)
    }

    fn set_redraw(&mut self, needs_redraw: bool)
        ensures
            *final(self) == (View { needs_redraw, ..*old(self) }),
    {
        self.needs_redraw = needs_redraw;
    }

    fn needs_redraw(&self) -> (res: bool)
        ensures
            res == self.needs_redraw,
    {
        self.needs_redraw
    }

    fn set_size(&mut self, size: Size)
        ensures
            *final(self) == (View { size, ..*old(self) }),
    {
        self.size = size;
    }

    /// Draws the view if it is out of date, and marks it as up to date in
    /// either case.
    fn render(&mut self, start_row: usize, terminal: &mut Terminal)
        ensures
            *final(self) == (View { needs_redraw: false, ..*old(self) }),
            final(terminal)@ == old(terminal)@ + (if old(self).needs_redraw {
                old(self).model().drawing(start_row)
            } else {
                Seq::<CommandView>::empty()
            }),
    {
        if self.needs_redraw {
            self.draw(start_row, terminal);
        }
        self.needs_redraw = false;
    }

    /// Greets where the document is empty and has no file, and shows the
    /// document otherwise.
    fn draw(&mut self, start_row: usize, terminal: &mut Terminal)
        ensures
            *final(self) == *old(self),
            final(terminal)@ == old(terminal)@ + old(self).model().drawing(start_row),
    {
        if self.buffer.is_empty() && self.buffer.save_file_path.is_none() {
            self.render_welcome_message(start_row, terminal);
        } else {
            self.render_lines(start_row, terminal);
        }
    }
}

} // verus!
