use crate::terminal::{CommandView, Position, Size, Terminal};
use crate::uicomponent::UIComponent;
use vstd::prelude::*;

verus! {

/// The commands that draw `text` into screen row `start_row`.
pub open spec fn message_drawing(start_row: usize, text: Seq<char>) -> Seq<CommandView> {
    seq![
        CommandView::MoveCursorTo(Position { row: start_row, column: 0 }),
        CommandView::Print(text),
    ]
}

/// The bar that shows a message to the user.
pub struct MessageBar {
    pub needs_redraw: bool,
    pub message: String,
    pub size: Size,
}

impl Default for MessageBar {
    fn default() -> (res: MessageBar)
        ensures
            !res.needs_redraw,
            res.message@ == Seq::<char>::empty(),
            res.size == (Size { num_rows: 30, num_columns: 120 }),
    {
        MessageBar { needs_redraw: false, message: String::new(), size: Size::default() }
    }
}

impl MessageBar {
    /// Takes a new message and asks for a redraw.
    pub fn set_message(&mut self, message: String)
        ensures
            final(self).message == message,
            final(self).needs_redraw,
            final(self).size == old(self).size,
    {
        self.message = message;
        self.set_redraw(true);
    }
}

impl UIComponent for MessageBar {
    open spec fn redraw_pending(&self) -> bool {
        self.needs_redraw
    }

    open spec fn with_redraw(&self, needs_redraw: bool) -> MessageBar {
        MessageBar { needs_redraw, ..*self }
    }

    open spec fn with_size(&self, size: Size) -> MessageBar {
        MessageBar { size, ..*self }
    }

    open spec fn fits(&self, start_row: usize) -> bool {
        true
    }

    open spec fn drawing(&self, start_row: usize) -> Seq<CommandView> {
        message_drawing(start_row, self.message@)
    }

    fn set_redraw(&mut self, needs_redraw: bool)
        ensures
            *final(self) == (MessageBar { needs_redraw, ..*old(self) }),
    {
        self.needs_redraw = needs_redraw;
    }

    fn needs_redraw(&self) -> (res: bool)
        ensures
            res == self.needs_redraw,
    {
        self.needs_redraw
    }

    fn set_size(&mut self, size: Size)
        ensures
            *final(self) == (MessageBar { size, ..*old(self) }),
    {
        self.size = size;
    }

    fn draw(&mut self, start_row: usize, terminal: &mut Terminal)
        ensures
            *final(self) == *old(self),
            final(terminal)@ == old(terminal)@ + message_drawing(start_row, old(self).message@),
    {
        terminal.move_cursor_to(Position { row: start_row, column: 0 });
        terminal.print(self.message.as_str());
        assert(terminal@ =~= old(terminal)@ + self.drawing(start_row));
    }
}

} // verus!
