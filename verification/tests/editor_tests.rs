use termedit::buffer::FileWrite;
use termedit::editor::{DocumentStatus, Editor, Location};
use termedit::editorcommand::{InputEvent, Key, KeyKind, Modifiers};
use termedit::terminal::{Command, Position, Size, Terminal};

const NONE: Modifiers = Modifiers { shift: false, control: false, other: false };
const CONTROL: Modifiers = Modifiers { shift: false, control: true, other: false };
const HELP: &str = "HELP: Ctrl-S = save | Ctrl-Q = quit";

fn press(key: Key) -> InputEvent {
    InputEvent::Key(key, NONE, KeyKind::Press)
}

fn texts(editor: &Editor) -> Vec<String> {
    editor.view.buffer.lines.iter().map(|line| line.string.clone()).collect()
}

fn started(size: Size, text: &str) -> Editor {
    let mut terminal = Terminal::new();
    Editor::new(&mut terminal, size, Some("notes.txt"), Some(text))
}

fn row(row: usize, text: &str) -> Vec<Command> {
    vec![
        Command::MoveCursorTo(Position { row, column: 0 }),
        Command::ClearLine,
        Command::Print(String::from(text)),
    ]
}

fn message_bar(row: usize) -> Vec<Command> {
    vec![
        Command::MoveCursorTo(Position { row, column: 0 }),
        Command::Print(String::from(HELP)),
    ]
}

fn status_bar(row: usize, text: &str) -> Vec<Command> {
    vec![
        Command::MoveCursorTo(Position { row, column: 0 }),
        Command::ReverseColour,
        Command::Print(String::from(text)),
        Command::ResetColour,
    ]
}

fn cursor(row: usize, column: usize) -> Vec<Command> {
    vec![
        Command::MoveCursorTo(Position { row, column }),
        Command::ShowCursor,
        Command::Flush,
    ]
}

#[test]
fn new_session_sets_the_terminal_up_and_opens_the_file() {
    let mut terminal = Terminal::new();
    let editor = Editor::new(
        &mut terminal,
        Size { num_rows: 24, num_columns: 80 },
        Some("notes.txt"),
        Some("abc\nde"),
    );
    assert_eq!(
        terminal.take_queue(),
        vec![
            Command::EnableRawMode,
            Command::EnterAlternateScreen,
            Command::DisableLineWrap,
            Command::ClearScreen,
            Command::MoveCursorTo(Position { row: 0, column: 0 }),
            Command::Flush,
            Command::SetTitle(String::from("notes.txt")),
        ]
    );
    assert!(!editor.should_quit);
    assert_eq!(editor.size, Size { num_rows: 24, num_columns: 80 });
    assert_eq!(editor.view.size, Size { num_rows: 22, num_columns: 80 });
    assert_eq!(editor.status_bar.size, Size { num_rows: 1, num_columns: 80 });
    assert_eq!(editor.message_bar.size, Size { num_rows: 1, num_columns: 80 });
    assert_eq!(texts(&editor), vec!["abc", "de"]);
    assert_eq!(editor.view.buffer.save_file_path.as_deref(), Some("notes.txt"));
    assert_eq!(editor.message_bar.message, HELP);
    assert!(editor.view.needs_redraw);
    assert!(editor.status_bar.needs_redraw);
    assert!(editor.message_bar.needs_redraw);
}

#[test]
fn new_session_without_a_file_is_empty_and_untitled() {
    let mut terminal = Terminal::new();
    let editor = Editor::new(&mut terminal, Size { num_rows: 24, num_columns: 80 }, None, None);
    assert_eq!(terminal.queue.len(), 6);
    assert!(editor.view.buffer.is_empty());
    assert_eq!(editor.view.buffer.save_file_path, None);
    assert_eq!(editor.view.bottom_margin, 0);
}

#[test]
fn new_session_with_an_unreadable_file_is_empty_and_untitled() {
    let mut terminal = Terminal::new();
    let editor =
        Editor::new(&mut terminal, Size { num_rows: 24, num_columns: 80 }, Some("gone.txt"), None);
    assert_eq!(terminal.queue.last(), Some(&Command::SetTitle(String::from("gone.txt"))));
    assert!(editor.view.buffer.is_empty());
    assert_eq!(editor.view.buffer.save_file_path, None);
    let other = Editor::new(&mut terminal, Size { num_rows: 24, num_columns: 80 }, None, Some("x"));
    assert!(other.view.buffer.is_empty());
}

#[test]
fn default_session_has_the_default_size() {
    let editor = Editor::default();
    assert!(!editor.should_quit);
    assert_eq!(editor.size, Size { num_rows: 30, num_columns: 120 });
    assert!(editor.status_bar.needs_redraw);
    assert!(!editor.message_bar.needs_redraw);
    assert!(!editor.view.needs_redraw);
}

#[test]
fn resize_hands_each_part_its_share() {
    let mut editor = started(Size { num_rows: 24, num_columns: 80 }, "abc");
    let mut terminal = Terminal::new();
    editor.refresh_screen(&mut terminal);
    editor.resize(Size { num_rows: 10, num_columns: 40 });
    assert_eq!(editor.size, Size { num_rows: 10, num_columns: 40 });
    assert_eq!(editor.view.size, Size { num_rows: 8, num_columns: 40 });
    assert_eq!(editor.status_bar.size, Size { num_rows: 1, num_columns: 40 });
    assert_eq!(editor.message_bar.size, Size { num_rows: 1, num_columns: 40 });
    assert!(editor.view.needs_redraw);
    assert!(editor.status_bar.needs_redraw);
    assert!(editor.message_bar.needs_redraw);
}

#[test]
fn resize_to_less_than_the_bars_leaves_the_view_no_row() {
    let mut editor = started(Size { num_rows: 24, num_columns: 80 }, "abc");
    editor.resize(Size { num_rows: 1, num_columns: 40 });
    assert_eq!(editor.view.size, Size { num_rows: 0, num_columns: 40 });
    editor.resize(Size { num_rows: 0, num_columns: 0 });
    assert_eq!(editor.view.size, Size { num_rows: 0, num_columns: 0 });
    editor.resize(Size { num_rows: 2, num_columns: 7 });
    assert_eq!(editor.view.size, Size { num_rows: 0, num_columns: 7 });
    editor.resize(Size { num_rows: 3, num_columns: 7 });
    assert_eq!(editor.view.size, Size { num_rows: 1, num_columns: 7 });
}

#[test]
fn refresh_draws_every_part_that_is_out_of_date() {
    let mut editor = started(Size { num_rows: 5, num_columns: 80 }, "abc\nde");
    let mut terminal = Terminal::new();
    editor.refresh_screen(&mut terminal);
    let mut expected = vec![Command::HideCursor];
    expected.extend(message_bar(4));
    expected.extend(status_bar(3, "notes.txt - 2 lines             1/2"));
    expected.extend(row(0, "abc"));
    expected.extend(row(1, "de"));
    expected.extend(row(2, "~"));
    expected.extend(cursor(0, 0));
    assert_eq!(terminal.take_queue(), expected);
    assert!(!editor.view.needs_redraw);
    assert!(!editor.status_bar.needs_redraw);
    assert!(!editor.message_bar.needs_redraw);
    assert_eq!(
        editor.status_bar.document_status,
        DocumentStatus {
            file_path: Some(String::from("notes.txt")),
            current_line: 1,
            total_lines: 2,
            is_modified: false,
        }
    );
}

#[test]
fn refresh_of_an_unchanged_screen_only_places_the_cursor() {
    let mut editor = started(Size { num_rows: 5, num_columns: 80 }, "abc\nde");
    let mut terminal = Terminal::new();
    editor.refresh_screen(&mut terminal);
    terminal.take_queue();
    editor.refresh_screen(&mut terminal);
    let mut expected = vec![Command::HideCursor];
    expected.extend(cursor(0, 0));
    assert_eq!(terminal.take_queue(), expected);
}

#[test]
fn refresh_after_a_move_redraws_the_status_bar_only() {
    let mut editor = started(Size { num_rows: 5, num_columns: 80 }, "abc\nde");
    let mut terminal = Terminal::new();
    editor.refresh_screen(&mut terminal);
    terminal.take_queue();
    assert_eq!(editor.evaluate_event(press(Key::Down)), None);
    assert_eq!(editor.evaluate_event(press(Key::Right)), None);
    editor.refresh_screen(&mut terminal);
    let mut expected = vec![Command::HideCursor];
    expected.extend(status_bar(3, "notes.txt - 2 lines             2/2"));
    expected.extend(cursor(1, 1));
    assert_eq!(terminal.take_queue(), expected);
}

#[test]
fn refresh_after_an_edit_redraws_the_document() {
    let mut editor = started(Size { num_rows: 4, num_columns: 80 }, "abc\nde");
    let mut terminal = Terminal::new();
    editor.refresh_screen(&mut terminal);
    terminal.take_queue();
    assert_eq!(editor.evaluate_event(press(Key::Char('x'))), None);
    editor.refresh_screen(&mut terminal);
    let mut expected = vec![Command::HideCursor];
    expected.extend(status_bar(2, "notes.txt - 2 lines (modified)             1/2"));
    expected.extend(row(0, "xabc"));
    expected.extend(row(1, "de"));
    expected.extend(cursor(0, 1));
    assert_eq!(terminal.take_queue(), expected);
}

#[test]
fn refresh_of_a_screen_without_cells_draws_nothing() {
    for size in [
        Size { num_rows: 0, num_columns: 80 },
        Size { num_rows: 24, num_columns: 0 },
        Size { num_rows: 0, num_columns: 0 },
    ] {
        let mut editor = started(size, "abc\nde");
        let mut terminal = Terminal::new();
        editor.refresh_screen(&mut terminal);
        assert!(terminal.queue.is_empty());
        assert!(editor.view.needs_redraw);
        assert!(editor.status_bar.needs_redraw);
        assert!(editor.message_bar.needs_redraw);
    }
}

#[test]
fn refresh_of_a_low_screen_draws_the_parts_that_have_a_row() {
    let mut editor = started(Size { num_rows: 1, num_columns: 80 }, "abc");
    let mut terminal = Terminal::new();
    editor.refresh_screen(&mut terminal);
    let mut expected = vec![Command::HideCursor];
    expected.extend(message_bar(0));
    expected.extend(cursor(0, 0));
    assert_eq!(terminal.take_queue(), expected);
    assert!(editor.status_bar.needs_redraw);
    assert!(editor.view.needs_redraw);

    let mut editor = started(Size { num_rows: 2, num_columns: 80 }, "abc");
    editor.refresh_screen(&mut terminal);
    let mut expected = vec![Command::HideCursor];
    expected.extend(message_bar(1));
    expected.extend(status_bar(0, "notes.txt - 1 lines             1/1"));
    expected.extend(cursor(0, 0));
    assert_eq!(terminal.take_queue(), expected);
    assert!(!editor.status_bar.needs_redraw);
    assert!(editor.view.needs_redraw);
}

#[test]
fn refresh_of_an_untitled_session_greets() {
    let mut terminal = Terminal::new();
    let mut editor = Editor::new(&mut terminal, Size { num_rows: 5, num_columns: 31 }, None, None);
    terminal.take_queue();
    editor.refresh_screen(&mut terminal);
    let mut expected = vec![Command::HideCursor];
    expected.extend(message_bar(4));
    expected.extend(status_bar(3, " - 0 lines             0/0"));
    expected.extend(row(0, "~"));
    expected.extend(row(1, "~"));
    expected.extend(row(2, "~"));
    expected.push(Command::MoveCursorTo(Position { row: 1, column: 3 }));
    expected.push(Command::Print(String::from("termedit Editor -- v0.1.0")));
    expected.extend(cursor(0, 0));
    assert_eq!(terminal.take_queue(), expected);
}

#[test]
fn keys_that_are_not_pressed_are_dropped() {
    let mut editor = started(Size { num_rows: 5, num_columns: 80 }, "abc");
    for kind in [KeyKind::Release, KeyKind::Repeat] {
        assert_eq!(editor.evaluate_event(InputEvent::Key(Key::Char('x'), NONE, kind)), None);
        assert_eq!(editor.evaluate_event(InputEvent::Key(Key::Char('q'), CONTROL, kind)), None);
        assert_eq!(editor.evaluate_event(InputEvent::Key(Key::Right, NONE, kind)), None);
    }
    assert_eq!(texts(&editor), vec!["abc"]);
    assert_eq!(editor.view.location, Location { x: 0, y: 0 });
    assert!(!editor.should_quit);
}

#[test]
fn unsupported_input_changes_nothing() {
    let mut editor = started(Size { num_rows: 5, num_columns: 80 }, "abc");
    let mut terminal = Terminal::new();
    editor.refresh_screen(&mut terminal);
    assert_eq!(editor.evaluate_event(InputEvent::Other), None);
    assert_eq!(editor.evaluate_event(press(Key::Other)), None);
    assert_eq!(
        editor.evaluate_event(InputEvent::Key(Key::Char('x'), CONTROL, KeyKind::Press)),
        None
    );
    assert_eq!(texts(&editor), vec!["abc"]);
    assert!(!editor.view.needs_redraw);
    assert!(!editor.view.buffer.is_modified);
}

#[test]
fn control_q_ends_the_session() {
    let mut editor = started(Size { num_rows: 5, num_columns: 80 }, "abc");
    assert_eq!(
        editor.evaluate_event(InputEvent::Key(Key::Char('q'), CONTROL, KeyKind::Press)),
        None
    );
    assert!(editor.should_quit);
    assert_eq!(texts(&editor), vec!["abc"]);
}

#[test]
fn control_s_hands_back_the_file_to_write() {
    let mut editor = started(Size { num_rows: 5, num_columns: 80 }, "abc\nde");
    editor.evaluate_event(press(Key::End));
    editor.evaluate_event(press(Key::Char('Z')));
    assert_eq!(
        editor.evaluate_event(InputEvent::Key(Key::Char('s'), CONTROL, KeyKind::Press)),
        Some(FileWrite { path: String::from("notes.txt"), contents: String::from("abcZ\nde\n") })
    );
    let mut terminal = Terminal::new();
    let mut untitled =
        Editor::new(&mut terminal, Size { num_rows: 5, num_columns: 80 }, None, None);
    untitled.evaluate_event(press(Key::Char('Z')));
    assert_eq!(
        untitled.evaluate_event(InputEvent::Key(Key::Char('s'), CONTROL, KeyKind::Press)),
        None
    );
}

#[test]
fn resize_event_resizes_the_session() {
    let mut editor = started(Size { num_rows: 24, num_columns: 80 }, "abc");
    let mut terminal = Terminal::new();
    editor.refresh_screen(&mut terminal);
    assert_eq!(editor.evaluate_event(InputEvent::Resize(100, 40)), None);
    assert_eq!(editor.size, Size { num_rows: 40, num_columns: 100 });
    assert_eq!(editor.view.size, Size { num_rows: 38, num_columns: 100 });
    assert!(editor.view.needs_redraw);
    assert!(editor.status_bar.needs_redraw);
    assert!(editor.message_bar.needs_redraw);
}

#[test]
fn typing_edits_the_document() {
    let mut editor = started(Size { num_rows: 24, num_columns: 80 }, "");
    for key in [Key::Char('h'), Key::Char('i'), Key::Enter, Key::Tab, Key::Char('!')] {
        assert_eq!(editor.evaluate_event(press(key)), None);
    }
    assert_eq!(texts(&editor), vec!["hi", "\t!"]);
    editor.evaluate_event(press(Key::Backspace));
    editor.evaluate_event(press(Key::Home));
    editor.evaluate_event(press(Key::Delete));
    assert_eq!(texts(&editor), vec!["hi", ""]);
    editor.evaluate_event(press(Key::Backspace));
    assert_eq!(texts(&editor), vec!["hi"]);
    assert_eq!(editor.view.location, Location { x: 2, y: 0 });
}

#[test]
fn terminate_gives_the_terminal_back() {
    let mut editor = started(Size { num_rows: 24, num_columns: 80 }, "abc");
    let mut terminal = Terminal::new();
    editor.terminate(&mut terminal);
    let shutdown = vec![
        Command::Flush,
        Command::DisableLineWrap,
        Command::LeaveAlternateScreen,
        Command::DisableRawMode,
    ];
    assert_eq!(terminal.take_queue(), shutdown);
    editor.evaluate_event(InputEvent::Key(Key::Char('q'), CONTROL, KeyKind::Press));
    editor.terminate(&mut terminal);
    let mut expected = shutdown.clone();
    expected.push(Command::Print(String::from("Goodbye!\r\n")));
    assert_eq!(terminal.take_queue(), expected);
}
