use crate::editor::{DocumentStatus, DocumentStatusView};
use crate::terminal::{CommandView, Position, Size, Terminal};
use crate::text::{decimal, padded_left, push_char, push_decimal, push_padded_left};
use crate::uicomponent::UIComponent;
use vstd::prelude::*;
use vstd::string::*;

verus! {

/// The number of characters that the row indicator takes at least.
pub const INDICATOR_WIDTH: usize = 15;

/// The row indicator: the cursor's row and the number of rows.
pub open spec fn indicator(current_line: usize, total_lines: usize) -> Seq<char> {
    decimal(current_line as nat) + seq!['/'] + decimal(total_lines as nat)
}

/// What the status bar says of a document: the file's name, or nothing for a
/// document without a file; the number of rows; a mark if the document was
/// edited; and the row indicator, set to the right in its field.
pub open spec fn status_text(status: DocumentStatusView) -> Seq<char> {
    (match status.file_path {
        Some(name) => name,
        None => Seq::empty(),
    }) + " - "@ + decimal(status.total_lines as nat) + " lines "@ + (if status.is_modified {
        "(modified) "@
    } else {
        Seq::empty()
    }) + padded_left(indicator(status.current_line, status.total_lines), INDICATOR_WIDTH as nat)
}

/// The commands that draw a bar with `text` in reverse video in screen row
/// `start_row`.
pub open spec fn bar_drawing(start_row: usize, text: Seq<char>) -> Seq<CommandView> {
    seq![
        CommandView::MoveCursorTo(Position { row: start_row, column: 0 }),
        CommandView::ReverseColour,
        CommandView::Print(text),
        CommandView::ResetColour,
    ]
}

/// The bar that tells of the document.
pub struct StatusBar {
    pub needs_redraw: bool,
    pub document_status: DocumentStatus,
    pub size: Size,
}

impl StatusBar {
    /// Takes a new summary of the document, and asks for a redraw if it says
    /// anything new.
    pub fn set_status(&mut self, document_status: DocumentStatus)
        ensures
            final(self).document_status@ == document_status@,
            final(self).needs_redraw == (old(self).needs_redraw || old(self).document_status@
                != document_status@),
            final(self).size == old(self).size,
    {
        if !self.document_status.same_as(&document_status) {
            self.document_status = document_status;
            self.set_redraw(true);
        }
    }

    /// The text of the bar.
    pub fn text(&self) -> (res: String)
        ensures
            res@ == status_text(self.document_status@),
    {
        let mut string = String::new();
        match &self.document_status.file_path {
            Some(file_name) => {
                string.append(file_name.as_str());
            },
            None => {},
        }
        string.append(" - ");
        push_decimal(&mut string, self.document_status.total_lines);
        string.append(" lines ");
        if self.document_status.is_modified {
            string.append("(modified) ");
        }
        let mut position = String::new();
        push_decimal(&mut position, self.document_status.current_line);
        push_char(&mut position, '/');
        push_decimal(&mut position, self.document_status.total_lines);
        assert(position@ =~= indicator(
            self.document_status.current_line,
            self.document_status.total_lines,
        ));
        push_padded_left(&mut string, position.as_str(), INDICATOR_WIDTH);
        assert(string@ =~= status_text(self.document_status@));
        string
    }
}

impl Default for StatusBar {
    fn default() -> (res: StatusBar)
        ensures
            res.needs_redraw,
            res.document_status@ == (DocumentStatusView {
                file_path: None,
                current_line: 0,
                total_lines: 0,
                is_modified: false,
            }),
            res.size == (Size { num_rows: 30, num_columns: 120 }),
    {
        StatusBar {
            needs_redraw: true,
            document_status: DocumentStatus::default(),
            size: Size::default(),
        }
    }
}

impl UIComponent for StatusBar {
    open spec fn redraw_pending(&self) -> bool {
        self.needs_redraw
    }

    open spec fn with_redraw(&self, needs_redraw: bool) -> StatusBar {
        StatusBar { needs_redraw, ..*self }
    }

    open spec fn with_size(&self, size: Size) -> StatusBar {
        StatusBar { size, ..*self }
    }

    open spec fn fits(&self, start_row: usize) -> bool {
        true
    }

    open spec fn drawing(&self, start_row: usize) -> Seq<CommandView> {
        bar_drawing(start_row, status_text(self.document_status@))
    }

    fn set_redraw(&mut self, needs_redraw: bool)
        ensures
            *final(self) == (StatusBar { needs_redraw, ..*old(self) }),
    {
        self.needs_redraw = needs_redraw;
    }

    fn needs_redraw(&self) -> (res: bool)
        ensures
            res == self.needs_redraw,
    {
        self.needs_redraw
    }

    fn set_size(&mut self, size: Size)
        ensures
            *final(self) == (StatusBar { size, ..*old(self) }),
    {
        self.size = size;
    }

    fn draw(&mut self, start_row: usize, terminal: &mut Terminal)
        ensures
            *final(self) == *old(self),
            final(terminal)@ == old(terminal)@ + bar_drawing(
                start_row,
                status_text(old(self).document_status@),
            ),
    {
        let string = self.text();
        terminal.move_cursor_to(Position { row: start_row, column: 0 });
        terminal.reverse_colour();
        terminal.print(string.as_str());
        terminal.reset_colour();
        assert(terminal@ =~= old(terminal)@ + self.drawing(start_row));
    }
}

} // verus!
