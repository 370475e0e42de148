use vstd::prelude::*;

verus! {

/// The extent of a rectangle of screen cells.
#[derive(Copy, Clone, Debug, PartialEq, Eq, Structural)]
pub struct Size {
    pub num_rows: usize,
    pub num_columns: usize,
}

/// A screen cell, counted from the top left corner of the screen.
#[derive(Copy, Clone, Debug, PartialEq, Eq, Structural)]
pub struct Position {
    pub row: usize,
    pub column: usize,
}

impl Default for Size {
    /// The extent assumed while the real one is not known.
    fn default() -> (res: Size)
        ensures
            res == (Size { num_rows: 30, num_columns: 120 }),
    {
        Size { num_rows: 30, num_columns: 120 }
    }
}

/// One primitive of the terminal device.
#[derive(Clone, Debug, PartialEq, Eq)]
pub enum Command {
    EnableRawMode,
    DisableRawMode,
    EnterAlternateScreen,
    LeaveAlternateScreen,
    EnableLineWrap,
    DisableLineWrap,
    SetTitle(String),
    ReverseColour,
    ResetColour,
    Print(String),
    ClearLine,
    ClearScreen,
    ShowCursor,
    HideCursor,
    MoveCursorTo(Position),
    Flush,
}

/// A `Command` with its texts as sequences of characters.
pub enum CommandView {
    EnableRawMode,
    DisableRawMode,
    EnterAlternateScreen,
    LeaveAlternateScreen,
    EnableLineWrap,
    DisableLineWrap,
    SetTitle(Seq<char>),
    ReverseColour,
    ResetColour,
    Print(Seq<char>),
    ClearLine,
    ClearScreen,
    ShowCursor,
    HideCursor,
    MoveCursorTo(Position),
    Flush,
}

impl View for Command {
    type V = CommandView;

    open spec fn view(&self) -> CommandView {
        match *self {
            Command::EnableRawMode => CommandView::EnableRawMode,
            Command::DisableRawMode => CommandView::DisableRawMode,
            Command::EnterAlternateScreen => CommandView::EnterAlternateScreen,
            Command::LeaveAlternateScreen => CommandView::LeaveAlternateScreen,
            Command::EnableLineWrap => CommandView::EnableLineWrap,
            Command::DisableLineWrap => CommandView::DisableLineWrap,
            Command::SetTitle(title) => CommandView::SetTitle(title@),
            Command::ReverseColour => CommandView::ReverseColour,
            Command::ResetColour => CommandView::ResetColour,
            Command::Print(text) => CommandView::Print(text@),
            Command::ClearLine => CommandView::ClearLine,
            Command::ClearScreen => CommandView::ClearScreen,
            Command::ShowCursor => CommandView::ShowCursor,
            Command::HideCursor => CommandView::HideCursor,
            Command::MoveCursorTo(position) => CommandView::MoveCursorTo(position),
            Command::Flush => CommandView::Flush,
        }
    }
}

/// The commands that bring the device into editing mode, in order.
pub open spec fn startup() -> Seq<CommandView> {
    seq![
        CommandView::EnableRawMode,
        CommandView::EnterAlternateScreen,
        CommandView::DisableLineWrap,
        CommandView::ClearScreen,
        CommandView::MoveCursorTo(Position { row: 0, column: 0 }),
        CommandView::Flush,
    ]
}

/// The commands that give the device back as it was, in order.
pub open spec fn shutdown() -> Seq<CommandView> {
    seq![
        CommandView::Flush,
        CommandView::DisableLineWrap,
        CommandView::LeaveAlternateScreen,
        CommandView::DisableRawMode,
    ]
}

/// The terminal as the editor sees it: a queue of commands, in the order in
/// which the device has to perform them. Whoever owns the device takes the
/// queue and carries it out.
pub struct Terminal {
    pub queue: Vec<Command>,
}

impl View for Terminal {
    type V = Seq<CommandView>;

    open spec fn view(&self) -> Seq<CommandView> {
        Seq::new(self.queue@.len(), |i: int| self.queue@[i]@)
    }
}

impl Terminal {
    pub fn new() -> (res: Terminal)
        ensures
            res@ == Seq::<CommandView>::empty(),
    {
        let res = Terminal { queue: Vec::new() };
        assert(res@ =~= Seq::<CommandView>::empty());
        res
    }

    /// Hands out the queued commands and leaves the queue empty.
    pub fn take_queue(&mut self) -> (res: Vec<Command>)
        ensures
            res == old(self).queue,
            final(self)@ == Seq::<CommandView>::empty(),
    {
        let mut queue: Vec<Command> = Vec::new();
        std::mem::swap(&mut self.queue, &mut queue);
        assert(self@ =~= Seq::<CommandView>::empty());
        queue
    }

    pub fn initialize(&mut self)
        ensures
            final(self)@ == old(self)@ + startup(),
    {
        self.queue_command(Command::EnableRawMode);
        self.enter_alternate_screen();
        self.disable_line_wrap();
        self.clear_screen();
        self.move_cursor_to(Position { row: 0, column: 0 });
        self.execute();
        assert(self@ =~= old(self)@ + startup());
    }

    pub fn terminate(&mut self)
        ensures
            final(self)@ == old(self)@ + shutdown(),
    {
        self.execute();
        self.disable_line_wrap();
        self.leave_alternate_screen();
        self.queue_command(Command::DisableRawMode);
        assert(self@ =~= old(self)@ + shutdown());
    }

    pub fn execute(&mut self)
        ensures
            final(self)@ == old(self)@.push(CommandView::Flush),
    {
        self.queue_command(Command::Flush);
    }

    pub fn enter_alternate_screen(&mut self)
        ensures
            final(self)@ == old(self)@.push(CommandView::EnterAlternateScreen),
    {
        self.queue_command(Command::EnterAlternateScreen);
    }

    pub fn leave_alternate_screen(&mut self)
        ensures
            final(self)@ == old(self)@.push(CommandView::LeaveAlternateScreen),
    {
        self.queue_command(Command::LeaveAlternateScreen);
    }

    pub fn enable_line_wrap(&mut self)
        ensures
            final(self)@ == old(self)@.push(CommandView::EnableLineWrap),
    {
        self.queue_command(Command::EnableLineWrap);
    }

    pub fn disable_line_wrap(&mut self)
        ensures
            final(self)@ == old(self)@.push(CommandView::DisableLineWrap),
    {
        self.queue_command(Command::DisableLineWrap);
    }

    pub fn set_title(&mut self, title: &str)
        ensures
            final(self)@ == old(self)@.push(CommandView::SetTitle(title@)),
    {
        self.queue_command(Command::SetTitle(title.to_owned()));
    }

    pub fn reverse_colour(&mut self)
        ensures
            final(self)@ == old(self)@.push(CommandView::ReverseColour),
    {
        self.queue_command(Command::ReverseColour);
    }

    pub fn reset_colour(&mut self)
        ensures
            final(self)@ == old(self)@.push(CommandView::ResetColour),
    {
        self.queue_command(Command::ResetColour);
    }

    pub fn print(&mut self, string: &str)
        ensures
            final(self)@ == old(self)@.push(CommandView::Print(string@)),
    {
        self.queue_command(Command::Print(string.to_owned()));
    }

    pub fn clear_line(&mut self)
        ensures
            final(self)@ == old(self)@.push(CommandView::ClearLine),
    {
        self.queue_command(Command::ClearLine);
    }

    pub fn clear_screen(&mut self)
        ensures
            final(self)@ == old(self)@.push(CommandView::ClearScreen),
    {
        self.queue_command(Command::ClearScreen);
    }

    pub fn show_cursor(&mut self)
        ensures
            final(self)@ == old(self)@.push(CommandView::ShowCursor),
    {
        self.queue_command(Command::ShowCursor);
    }

    pub fn hide_cursor(&mut self)
        ensures
            final(self)@ == old(self)@.push(CommandView::HideCursor),
    {
        self.queue_command(Command::HideCursor);
    }

    pub fn move_cursor_to(&mut self, position: Position)
        ensures
            final(self)@ == old(self)@.push(CommandView::MoveCursorTo(position)),
    {
        self.queue_command(Command::MoveCursorTo(position));
    }

    /// Puts `command` at the end of the queue.
    pub fn queue_command(&mut self, command: Command)
        ensures
            final(self)@ == old(self)@.push(command@),
    {
        self.queue.push(command);
        assert(self@ =~= old(self)@.push(command@));
    }
}

} // verus!
