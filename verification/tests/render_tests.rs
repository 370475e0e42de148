use termedit::editor::DocumentStatus;
use termedit::editorcommand::{Direction, EditorCommand};
use termedit::messagebar::MessageBar;
use termedit::statusbar::StatusBar;
use termedit::terminal::{Command, Position, Size, Terminal};
use termedit::text::{push_decimal, push_padded_left};
use termedit::uicomponent::UIComponent;
use termedit::view::View;

fn row(row: usize, text: &str) -> Vec<Command> {
    vec![
        Command::MoveCursorTo(Position { row, column: 0 }),
        Command::ClearLine,
        Command::Print(String::from(text)),
    ]
}

fn rows(start_row: usize, texts: &[&str]) -> Vec<Command> {
    let mut commands = Vec::new();
    for (index, text) in texts.iter().enumerate() {
        commands.extend(row(start_row + index, text));
    }
    commands
}

fn loaded(text: &str, size: Size) -> View {
    let mut view = View::new(0);
    view.load("notes.txt", text);
    view.resize(size);
    view
}

#[test]
fn view_draws_the_rows_of_the_window() {
    let mut view = loaded("abc\nde\nfghij", Size { num_rows: 4, num_columns: 3 });
    let mut terminal = Terminal::new();
    view.render(0, &mut terminal);
    assert_eq!(terminal.take_queue(), rows(0, &["abc", "de", "fgh", "~"]));
    assert!(!view.needs_redraw);
}

#[test]
fn view_draws_from_the_start_row_down() {
    let mut view = loaded("abc\nde", Size { num_rows: 2, num_columns: 10 });
    let mut terminal = Terminal::new();
    view.draw(5, &mut terminal);
    assert_eq!(terminal.take_queue(), rows(5, &["abc", "de"]));
    assert!(view.needs_redraw);
}

#[test]
fn view_draws_what_the_scrolled_window_shows() {
    let mut view = loaded("abc\nde\nfghij\nlast", Size { num_rows: 2, num_columns: 3 });
    view.handle_command(EditorCommand::Move(Direction::Down));
    view.handle_command(EditorCommand::Move(Direction::Down));
    view.handle_command(EditorCommand::Move(Direction::End));
    assert_eq!(view.top_left.x, 3);
    assert_eq!(view.top_left.y, 1);
    let mut terminal = Terminal::new();
    view.render(0, &mut terminal);
    assert_eq!(terminal.take_queue(), rows(0, &["", "ij"]));
    view.handle_command(EditorCommand::Move(Direction::Left));
    view.handle_command(EditorCommand::Move(Direction::Left));
    view.handle_command(EditorCommand::Move(Direction::Left));
    assert_eq!(view.top_left.x, 2);
    view.render(0, &mut terminal);
    assert_eq!(terminal.take_queue(), rows(0, &["", "hij"]));
}

#[test]
fn view_that_is_up_to_date_draws_nothing() {
    let mut view = loaded("abc", Size { num_rows: 2, num_columns: 3 });
    let mut terminal = Terminal::new();
    view.render(0, &mut terminal);
    terminal.take_queue();
    view.render(0, &mut terminal);
    assert!(terminal.queue.is_empty());
    view.handle_command(EditorCommand::Move(Direction::Right));
    view.render(0, &mut terminal);
    assert!(terminal.queue.is_empty());
    view.handle_command(EditorCommand::Insert('x'));
    view.render(0, &mut terminal);
    assert_eq!(terminal.take_queue(), rows(0, &["axb", "~"]));
}

#[test]
fn view_without_rows_draws_nothing() {
    let mut view = loaded("abc\nde", Size { num_rows: 0, num_columns: 10 });
    let mut terminal = Terminal::new();
    view.render(0, &mut terminal);
    assert!(terminal.queue.is_empty());
    assert!(!view.needs_redraw);
    let mut greeting = View::new(0);
    greeting.resize(Size { num_rows: 0, num_columns: 10 });
    greeting.render(0, &mut terminal);
    assert!(terminal.queue.is_empty());
    let mut margin = View::new(3);
    margin.resize(Size { num_rows: 2, num_columns: 10 });
    margin.render(0, &mut terminal);
    assert!(terminal.queue.is_empty());
}

#[test]
fn view_without_columns_draws_empty_rows() {
    let mut view = loaded("abc\nde", Size { num_rows: 3, num_columns: 0 });
    let mut terminal = Terminal::new();
    view.render(0, &mut terminal);
    assert_eq!(terminal.take_queue(), rows(0, &["", "", "~"]));
}

#[test]
fn empty_untitled_view_greets() {
    let mut view = View::new(0);
    view.resize(Size { num_rows: 6, num_columns: 40 });
    let mut terminal = Terminal::new();
    view.render(0, &mut terminal);
    let mut expected = rows(0, &["~", "~", "~", "~", "~", "~"]);
    expected.push(Command::MoveCursorTo(Position { row: 2, column: 7 }));
    expected.push(Command::Print(String::from("termedit Editor -- v0.1.0")));
    assert_eq!(terminal.take_queue(), expected);
}

#[test]
fn greeting_is_cut_to_the_width_of_the_window() {
    let mut view = View::new(0);
    view.resize(Size { num_rows: 1, num_columns: 10 });
    let mut terminal = Terminal::new();
    view.render_welcome_message(4, &mut terminal);
    let mut expected = rows(4, &["~"]);
    expected.push(Command::MoveCursorTo(Position { row: 4, column: 0 }));
    expected.push(Command::Print(String::from("termedit ")));
    assert_eq!(terminal.take_queue(), expected);
    view.resize(Size { num_rows: 3, num_columns: 0 });
    view.draw_welcome_message(0, &mut terminal);
    assert_eq!(
        terminal.take_queue(),
        vec![
            Command::MoveCursorTo(Position { row: 1, column: 0 }),
            Command::Print(String::new()),
        ]
    );
}

#[test]
fn empty_document_with_a_file_shows_placeholders_only() {
    let mut view = loaded("", Size { num_rows: 2, num_columns: 40 });
    let mut terminal = Terminal::new();
    view.render(0, &mut terminal);
    assert_eq!(terminal.take_queue(), rows(0, &["~", "~"]));
}

#[test]
fn render_lines_leaves_the_bottom_margin_alone() {
    let mut view = View::new(2);
    view.load("f", "a\nb\nc\nd");
    view.resize(Size { num_rows: 5, num_columns: 8 });
    let mut terminal = Terminal::new();
    view.render_lines(0, &mut terminal);
    assert_eq!(terminal.take_queue(), rows(0, &["a", "b", "c"]));
}

fn status(path: Option<&str>, current: usize, total: usize, modified: bool) -> DocumentStatus {
    DocumentStatus {
        file_path: path.map(String::from),
        current_line: current,
        total_lines: total,
        is_modified: modified,
    }
}

#[test]
fn status_bar_tells_name_rows_and_position() {
    let mut bar = StatusBar::default();
    bar.set_status(status(Some("notes.txt"), 1, 3, false));
    assert_eq!(bar.text(), "notes.txt - 3 lines             1/3");
    bar.set_status(status(Some("notes.txt"), 12, 345, true));
    assert_eq!(bar.text(), "notes.txt - 345 lines (modified)          12/345");
    bar.set_status(status(Some("a"), 0, 0, false));
    assert_eq!(bar.text(), "a - 0 lines             0/0");
}

#[test]
fn status_bar_does_not_cut_a_long_position() {
    let mut bar = StatusBar::default();
    bar.set_status(status(Some("f"), 123456789, 1234567890, false));
    assert_eq!(bar.text(), "f - 1234567890 lines 123456789/1234567890");
}

#[test]
fn status_bar_of_an_untitled_document_has_no_name() {
    let mut bar = StatusBar::default();
    assert_eq!(bar.text(), " - 0 lines             0/0");
    bar.set_status(status(None, 4, 9, true));
    assert_eq!(bar.text(), " - 9 lines (modified)             4/9");
}

#[test]
fn status_bar_draws_in_reverse_video() {
    let mut bar = StatusBar::default();
    assert!(bar.needs_redraw());
    bar.set_status(status(Some("notes.txt"), 2, 3, true));
    let mut terminal = Terminal::new();
    bar.render(7, &mut terminal);
    assert_eq!(
        terminal.take_queue(),
        vec![
            Command::MoveCursorTo(Position { row: 7, column: 0 }),
            Command::ReverseColour,
            Command::Print(String::from("notes.txt - 3 lines (modified)             2/3")),
            Command::ResetColour,
        ]
    );
    assert!(!bar.needs_redraw());
}

#[test]
fn status_bar_asks_for_a_redraw_only_for_news() {
    let mut bar = StatusBar::default();
    let mut terminal = Terminal::new();
    bar.render(0, &mut terminal);
    assert!(!bar.needs_redraw);
    bar.set_status(DocumentStatus::default());
    assert!(!bar.needs_redraw);
    bar.set_status(status(Some("f"), 1, 1, false));
    assert!(bar.needs_redraw);
    bar.render(0, &mut terminal);
    bar.set_status(status(Some("f"), 1, 1, false));
    assert!(!bar.needs_redraw);
    bar.set_status(status(Some("f"), 1, 1, true));
    assert!(bar.needs_redraw);
    assert_eq!(bar.document_status, status(Some("f"), 1, 1, true));
}

#[test]
fn bars_take_a_new_size_and_ask_for_a_redraw() {
    let mut bar = StatusBar::default();
    let mut terminal = Terminal::new();
    bar.render(0, &mut terminal);
    bar.resize(Size { num_rows: 1, num_columns: 80 });
    assert_eq!(bar.size, Size { num_rows: 1, num_columns: 80 });
    assert!(bar.needs_redraw);
    bar.set_redraw(false);
    bar.set_size(Size { num_rows: 1, num_columns: 20 });
    assert_eq!(bar.size, Size { num_rows: 1, num_columns: 20 });
    assert!(!bar.needs_redraw);
    let mut message = MessageBar::default();
    assert!(!message.needs_redraw());
    message.resize(Size { num_rows: 1, num_columns: 80 });
    assert_eq!(message.size, Size { num_rows: 1, num_columns: 80 });
    assert!(message.needs_redraw());
}

#[test]
fn message_bar_draws_its_message_once() {
    let mut bar = MessageBar::default();
    let mut terminal = Terminal::new();
    bar.render(3, &mut terminal);
    assert!(terminal.queue.is_empty());
    bar.set_message(String::from("saved"));
    assert!(bar.needs_redraw);
    assert_eq!(bar.message, "saved");
    bar.render(3, &mut terminal);
    assert_eq!(
        terminal.take_queue(),
        vec![
            Command::MoveCursorTo(Position { row: 3, column: 0 }),
            Command::Print(String::from("saved")),
        ]
    );
    bar.render(3, &mut terminal);
    assert!(terminal.queue.is_empty());
}

#[test]
fn numbers_are_written_in_decimal() {
    let mut text = String::from("n=");
    push_decimal(&mut text, 0);
    push_decimal(&mut text, 7);
    push_decimal(&mut text, 10);
    push_decimal(&mut text, 9090);
    assert_eq!(text, "n=07109090");
    let mut largest = String::new();
    push_decimal(&mut largest, usize::MAX);
    assert_eq!(largest, usize::MAX.to_string());
}

#[test]
fn padding_fills_up_from_the_left() {
    let mut text = String::from("[");
    push_padded_left(&mut text, "ab", 5);
    push_padded_left(&mut text, "]", 0);
    push_padded_left(&mut text, "long text", 4);
    push_padded_left(&mut text, "\u{e9}", 3);
    assert_eq!(text, "[   ab]long text  \u{e9}");
}
