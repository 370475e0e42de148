use crate::buffer::{rows_of, saved_text, FileWrite};
use crate::editorcommand::{resolved, EditorCommand, InputEvent, KeyKind};
use crate::messagebar::MessageBar;
use crate::statusbar::StatusBar;
use crate::terminal::{shutdown, startup, CommandView, Position, Size, Terminal};
use crate::uicomponent::UIComponent;
use crate::view::ViewModel;
use vstd::prelude::*;

verus! {

/// A cursor position in document coordinates: column `x` (a byte offset into
/// the row's text) and row `y`, both counted from zero.
#[derive(Copy, Clone, Debug, PartialEq, Eq, Structural)]
pub struct Location {
    pub x: usize,
    pub y: usize,
}

impl Default for Location {
    fn default() -> (res: Location)
        ensures
            res == (Location { x: 0, y: 0 }),
    {
        Location { x: 0, y: 0 }
    }
}

/// What the status bar shows of the document.
#[derive(Clone, Debug, PartialEq, Eq)]
pub struct DocumentStatus {
    pub file_path: Option<String>,
    /// The cursor's row, counted from one.
    pub current_line: usize,
    pub total_lines: usize,
    pub is_modified: bool,
}

/// A `DocumentStatus` with its path as a sequence of characters.
pub struct DocumentStatusView {
    pub file_path: Option<Seq<char>>,
    pub current_line: usize,
    pub total_lines: usize,
    pub is_modified: bool,
}

impl View for DocumentStatus {
    type V = DocumentStatusView;

    open spec fn view(&self) -> DocumentStatusView {
        DocumentStatusView {
            file_path: match self.file_path {
                Some(path) => Some(path@),
                None => None,
            },
            current_line: self.current_line,
            total_lines: self.total_lines,
            is_modified: self.is_modified,
        }
    }
}

impl Default for DocumentStatus {
    fn default() -> (res: DocumentStatus)
        ensures
            res@ == (DocumentStatusView {
                file_path: None,
                current_line: 0,
                total_lines: 0,
                is_modified: false,
            }),
    {
        DocumentStatus { file_path: None, current_line: 0, total_lines: 0, is_modified: false }
    }
}

impl DocumentStatus {
    /// Whether two summaries say the same.
    pub fn same_as(&self, other: &DocumentStatus) -> (res: bool)
        ensures
            res == (self@ == other@),
    {
        let same_path = match (&self.file_path, &other.file_path) {
            (Some(mine), Some(theirs)) => *mine == *theirs,
            (None, None) => true,
            _ => false,
        };
        same_path && self.current_line == other.current_line && self.total_lines
            == other.total_lines && self.is_modified == other.is_modified
    }
}

/// Joining three sequences gives the same whichever two are joined first.
pub proof fn lemma_concat_assoc<A>(a: Seq<A>, b: Seq<A>, c: Seq<A>)
    ensures
        (a + b) + c == a + (b + c),
{
    assert((a + b) + c =~= a + (b + c));
}

/// The extent left for the document on a screen of extent `size`: all but the
/// two rows of the bars.
pub open spec fn view_size(size: Size) -> Size {
    Size {
        num_rows: if size.num_rows >= 2 {
            (size.num_rows - 2) as usize
        } else {
            0
        },
        num_columns: size.num_columns,
    }
}

/// The extent of a bar on a screen of extent `size`: one row.
pub open spec fn bar_size(size: Size) -> Size {
    Size { num_rows: 1, num_columns: size.num_columns }
}

/// Whether the editor takes notice of `event`: a key that went down, or a
/// change of the screen's extent.
pub open spec fn accepted(event: InputEvent) -> bool {
    match event {
        InputEvent::Key(_, _, kind) => kind == KeyKind::Press,
        InputEvent::Resize(_, _) => true,
        InputEvent::Other => false,
    }
}

/// The command that `event` brings about, if any.
pub open spec fn command_of(event: InputEvent) -> Option<EditorCommand> {
    if accepted(event) {
        match resolved(event) {
            Ok(command) => Some(command),
            Err(_) => None,
        }
    } else {
        None
    }
}

/// The help that the message bar shows at the start.
pub open spec fn help() -> Seq<char> {
    "HELP: Ctrl-S = save | Ctrl-Q = quit"@
}

/// The editing session: the document's view, the two bars below it, and the
/// extent of the screen.
pub struct Editor {
    pub should_quit: bool,
    pub view: crate::view::View,
    pub status_bar: StatusBar,
    pub message_bar: MessageBar,
    pub size: Size,
}

impl Default for Editor {
    fn default() -> (res: Editor)
        ensures
            !res.should_quit,
            res.view.model() == (ViewModel { needs_redraw: false, ..crate::view::View::fresh(0) }),
            res.view.wf(),
            res.status_bar.needs_redraw,
            res.status_bar.document_status@ == (DocumentStatusView {
                file_path: None,
                current_line: 0,
                total_lines: 0,
                is_modified: false,
            }),
            !res.message_bar.needs_redraw,
            res.message_bar.message@ == Seq::<char>::empty(),
            res.size == (Size { num_rows: 30, num_columns: 120 }),
    {
        Editor {
            should_quit: false,
            view: Default::default(),
            status_bar: StatusBar::default(),
            message_bar: MessageBar::default(),
            size: Size::default(),
        }
    }
}

impl Editor {
    /// The view's cursor stands in the document and not before the window's
    /// corner.
    pub open spec fn wf(&self) -> bool {
        self.view.wf()
    }

    /// The state of the view with which a session starts on a screen of
    /// extent `size`: the document of the file, if a path was given and the
    /// file's text could be had, and an empty document without a file
    /// otherwise.
    pub open spec fn first_view(
        size: Size,
        file_path: Option<Seq<char>>,
        file_contents: Option<Seq<char>>,
    ) -> ViewModel {
        let empty = ViewModel { size: view_size(size), ..crate::view::View::fresh(0) };
        if file_path is Some && file_contents is Some {
            ViewModel {
                lines: rows_of(file_contents->0),
                file_path: Some(file_path->0),
                ..empty
            }
        } else {
            empty
        }
    }

    /// The commands that name the screen after the file, if there is one.
    pub open spec fn title_drawing(file_path: Option<Seq<char>>) -> Seq<CommandView> {
        match file_path {
            Some(path) => seq![CommandView::SetTitle(path)],
            None => Seq::empty(),
        }
    }

    /// Starts a session on a screen of extent `size`: brings the terminal
    /// into editing mode and opens the file at `file_path`, if one is given,
    /// from its text `file_contents`. Where the text could not be had, the
    /// session starts with an empty document without a file.
    pub fn new(
        terminal: &mut Terminal,
        size: Size,
        file_path: Option<&str>,
        file_contents: Option<&str>,
    ) -> (res: Editor)
        ensures
            final(terminal)@ == old(terminal)@ + startup() + Editor::title_drawing(
                match file_path {
                    Some(path) => Some(path@),
                    None => None,
                },
            ),
            res.wf(),
            !res.should_quit,
            res.size == size,
            res.view.model() == Editor::first_view(
                size,
                match file_path {
                    Some(path) => Some(path@),
                    None => None,
                },
                match file_contents {
                    Some(contents) => Some(contents@),
                    None => None,
                },
            ),
            res.status_bar.needs_redraw,
            res.status_bar.size == bar_size(size),
            res.status_bar.document_status@ == (DocumentStatusView {
                file_path: None,
                current_line: 0,
                total_lines: 0,
                is_modified: false,
            }),
            res.message_bar.needs_redraw,
            res.message_bar.size == bar_size(size),
            res.message_bar.message@ == help(),
    {
        terminal.initialize();
        let mut editor = Editor::default();
        editor.resize(size);
        match file_path {
            Some(path) => {
                match file_contents {
                    Some(contents) => {
                        editor.view.load(path, contents);
                    },
                    None => {},
                }
                terminal.set_title(path);
                assert(terminal@ =~= old(terminal)@ + startup() + seq![
                    CommandView::SetTitle(path@),
                ]);
            },
            None => {
                assert(terminal@ =~= old(terminal)@ + startup() + Seq::<CommandView>::empty());
            },
        }
        editor.message_bar.set_message("HELP: Ctrl-S = save | Ctrl-Q = quit".to_owned());
        editor
    }

    /// Takes a new extent of the screen and hands each part its share.
    pub fn resize(&mut self, size: Size)
        ensures
            *final(self) == (Editor {
                size,
                view: old(self).view.with_size(view_size(size)).with_redraw(true),
                status_bar: old(self).status_bar.with_size(bar_size(size)).with_redraw(true),
                message_bar: old(self).message_bar.with_size(bar_size(size)).with_redraw(true),
                ..*old(self)
            }),
    {
        self.size = size;
        let num_rows = if size.num_rows >= 2 {
            size.num_rows - 2
        } else {
            0
        };
        self.view.resize(Size { num_rows, num_columns: size.num_columns });
        self.status_bar.resize(Size { num_rows: 1, num_columns: size.num_columns });
        self.message_bar.resize(Size { num_rows: 1, num_columns: size.num_columns });
    }

    /// Takes one input event: resolves it to a command and carries the
    /// command out, or drops the event if it stands for none. Hands back what
    /// a save has to write.
    pub fn evaluate_event(&mut self, event: InputEvent) -> (res: Option<FileWrite>)
        requires
            old(self).wf(),
        ensures
            final(self).wf(),
            match command_of(event) {
                None => *final(self) == *old(self),
                Some(EditorCommand::Quit) => *final(self) == (Editor {
                    should_quit: true,
                    ..*old(self)
                }),
                Some(EditorCommand::Resize(size)) => *final(self) == (Editor {
                    size,
                    view: old(self).view.with_size(view_size(size)).with_redraw(true),
                    status_bar: old(self).status_bar.with_size(bar_size(size)).with_redraw(true),
                    message_bar: old(self).message_bar.with_size(bar_size(size)).with_redraw(
                        true,
                    ),
                    ..*old(self)
                }),
                Some(command) => {
                    &&& final(self).view.model() == old(self).view.model().apply(command)
                    &&& *final(self) == (Editor { view: final(self).view, ..*old(self) })
                },
            },
            command_of(event) != Some(EditorCommand::Save) || old(self).view.model().file_path
                is None ==> res is None,
            command_of(event) == Some(EditorCommand::Save) && old(self).view.model().file_path
                is Some ==> res is Some && Some(res->0.path@) == old(self).view.model().file_path
                && res->0.contents@ == saved_text(old(self).view.model().lines),
    {
        let should_process = match event {
            InputEvent::Key(_, _, kind) => match kind {
                KeyKind::Press => true,
                _ => false,
            },
            InputEvent::Resize(_, _) => true,
            InputEvent::Other => false,
        };
        if should_process {
            match EditorCommand::try_from(event) {
                Ok(EditorCommand::Quit) => {
                    self.should_quit = true;
                    None
                },
                Ok(EditorCommand::Resize(size)) => {
                    self.resize(size);
                    self.view.set_redraw(true);
                    None
                },
                Ok(command) => self.view.handle_command(command),
                Err(_) => None,
            }
        } else {
            None
        }
    }

    /// Whether the status bar is out of date: a redraw is pending, or it holds
    /// another summary than the document now has.
    pub open spec fn status_due(&self) -> bool {
        self.status_bar.needs_redraw || self.status_bar.document_status@
            != self.view.model().status()
    }

    /// The commands that bring the screen up to date: nothing for a screen
    /// without cells; otherwise each part that is out of date and has a row
    /// on the screen, bottom first, between hiding the cursor and showing it
    /// at its place.
    pub open spec fn screen_drawing(&self) -> Seq<CommandView> {
        if self.size.num_rows == 0 || self.size.num_columns == 0 {
            Seq::empty()
        } else {
            seq![CommandView::HideCursor] + (if self.message_bar.needs_redraw {
                self.message_bar.drawing((self.size.num_rows - 1) as usize)
            } else {
                Seq::empty()
            }) + (if self.size.num_rows > 1 && self.status_due() {
                crate::statusbar::bar_drawing(
                    (self.size.num_rows - 2) as usize,
                    crate::statusbar::status_text(self.view.model().status()),
                )
            } else {
                Seq::empty()
            }) + (if self.size.num_rows > 2 && self.view.needs_redraw {
                self.view.drawing(0)
            } else {
                Seq::empty()
            }) + seq![
                CommandView::MoveCursorTo(self.view.model().cursor()),
                CommandView::ShowCursor,
                CommandView::Flush,
            ]
        }
    }

    /// Brings the screen up to date. Does nothing on a screen without cells.
    pub fn refresh_screen(&mut self, terminal: &mut Terminal)
        requires
            old(self).wf(),
        ensures
            final(self).wf(),
            final(terminal)@ == old(terminal)@ + old(self).screen_drawing(),
            old(self).size.num_rows == 0 || old(self).size.num_columns == 0 ==> *final(self)
                == *old(self),
            old(self).size.num_rows > 0 && old(self).size.num_columns > 0 ==> {
                &&& final(self).should_quit == old(self).should_quit
                &&& final(self).size == old(self).size
                &&& final(self).message_bar == old(self).message_bar.with_redraw(false)
                &&& final(self).status_bar.document_status@ == old(self).view.model().status()
                &&& final(self).status_bar.size == old(self).status_bar.size
                &&& final(self).status_bar.needs_redraw == (old(self).size.num_rows <= 1
                    && old(self).status_due())
                &&& final(self).view == old(self).view.with_redraw(
                    old(self).size.num_rows <= 2 && old(self).view.needs_redraw,
                )
            },
    {
        if self.size.num_rows == 0 || self.size.num_columns == 0 {
            assert(terminal@ + Seq::<CommandView>::empty() =~= terminal@);
            return ;
        }
        let ghost start = terminal@;
        let ghost message = if self.message_bar.needs_redraw {
            self.message_bar.drawing((self.size.num_rows - 1) as usize)
        } else {
            Seq::empty()
        };
        let ghost status = if self.size.num_rows > 1 && self.status_due() {
            crate::statusbar::bar_drawing(
                (self.size.num_rows - 2) as usize,
                crate::statusbar::status_text(self.view.model().status()),
            )
        } else {
            Seq::empty()
        };
        let ghost document = if self.size.num_rows > 2 && self.view.needs_redraw {
            self.view.drawing(0)
        } else {
            Seq::empty()
        };
        terminal.hide_cursor();
        self.status_bar.set_status(self.view.get_status());
        self.message_bar.render(self.size.num_rows - 1, terminal);
        assert(terminal@ == start.push(CommandView::HideCursor) + message);
        let ghost second = terminal@;
        if self.size.num_rows > 1 {
            self.status_bar.render(self.size.num_rows - 2, terminal);
        }
        assert(terminal@ =~= second + status);
        let ghost third = terminal@;
        if self.size.num_rows > 2 {
            self.view.render(0, terminal);
        }
        assert(terminal@ =~= third + document);
        let ghost fourth = terminal@;
        Editor::place_cursor(self.view.get_cursor_position(), terminal);
        proof {
            let first = seq![CommandView::HideCursor];
            let last = seq![
                CommandView::MoveCursorTo(old(self).view.model().cursor()),
                CommandView::ShowCursor,
                CommandView::Flush,
            ];
            assert(terminal@ == fourth + last);
            assert(start.push(CommandView::HideCursor) =~= start + first);
            lemma_concat_assoc(start, first, message);
            lemma_concat_assoc(start, first + message, status);
            lemma_concat_assoc(start, first + message + status, document);
            lemma_concat_assoc(start, first + message + status + document, last);
        }
    }

    /// Shows the cursor at `position` and has the device carry out what was
    /// queued.
    fn place_cursor(position: Position, terminal: &mut Terminal)
        ensures
            final(terminal)@ == old(terminal)@ + seq![
                CommandView::MoveCursorTo(position),
                CommandView::ShowCursor,
                CommandView::Flush,
            ],
    {
        terminal.move_cursor_to(position);
        terminal.show_cursor();
        terminal.execute();
        assert(terminal@ =~= old(terminal)@ + seq![
            CommandView::MoveCursorTo(position),
            CommandView::ShowCursor,
            CommandView::Flush,
        ]);
    }

    /// Ends the session: gives the terminal back as it was and, after a quit,
    /// says goodbye.
    pub fn terminate(&self, terminal: &mut Terminal)
        ensures
            final(terminal)@ == old(terminal)@ + shutdown() + (if self.should_quit {
                seq![CommandView::Print("Goodbye!\r\n"@)]
            } else {
                Seq::empty()
            }),
    {
        terminal.terminate();
        if self.should_quit {
            terminal.print("Goodbye!\r\n");
            assert(terminal@ =~= old(terminal)@ + shutdown() + seq![
                CommandView::Print("Goodbye!\r\n"@),
            ]);
        } else {
            assert(terminal@ =~= old(terminal)@ + shutdown() + Seq::<CommandView>::empty());
        }
    }
}

} // verus!
