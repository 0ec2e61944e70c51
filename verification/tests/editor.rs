use modal_edit::application::{Action, Application, Mode};
use modal_edit::buffer::Buffer;
use modal_edit::events::{handle_event, Key};

fn chars_of(s: &str) -> Vec<char> {
    s.chars().collect()
}

fn text(lines: &[&str]) -> Vec<Vec<char>> {
    lines.iter().map(|l| l.chars().collect()).collect()
}

fn scratch_app(mode: Mode) -> Application {
    Application::new(mode, vec![Buffer::new(None, None)])
}

fn app_with(content: &str) -> Application {
    Application::new(
        Mode::Normal,
        vec![Buffer::new(None, Some(chars_of(content)))],
    )
}

fn cursor(app: &Application) -> (usize, usize) {
    let vp = &app.viewports[app.current_viewport];
    (vp.cursor_x, vp.cursor_y)
}

fn lines(app: &Application) -> &Vec<Vec<char>> {
    let vp = &app.viewports[app.current_viewport];
    &app.buffers[vp.buffer_id].lines
}

#[test]
fn it_should_quit_application() {
    let app = scratch_app(Mode::Normal);

    let action = handle_event(Key::Char('q'), &app.mode);

    assert_eq!(Action::Quit, action.expect("No action returned"));
}

#[test]
fn it_should_switch_to_insert_mode() {
    let mut app = scratch_app(Mode::Normal);

    assert_eq!(app.mode, Mode::Normal);

    let action = handle_event(Key::Char('i'), &app.mode);
    app.handle_action(action.expect("No action returned"));

    assert_eq!(app.mode, Mode::Insert);
}

#[test]
fn it_should_switch_from_insert_to_normal_mode() {
    let mut app = scratch_app(Mode::Insert);

    assert_eq!(app.mode, Mode::Insert);

    let action = handle_event(Key::Esc, &app.mode);
    app.handle_action(action.expect("No action returned"));

    assert_eq!(app.mode, Mode::Normal);
}

#[test]
fn loading_content_splits_it_into_lines() {
    let buffer = Buffer::new(None, Some(chars_of("a\nb\nc")));
    assert_eq!(buffer.lines, text(&["a", "b", "c"]));
}

#[test]
fn loading_without_a_source_yields_one_empty_line() {
    let buffer = Buffer::new(None, None);
    assert_eq!(buffer.lines, text(&[""]));
}

#[test]
fn a_trailing_newline_yields_no_extra_line() {
    let buffer = Buffer::new(None, Some(chars_of("a\nb\n")));
    assert_eq!(buffer.lines, text(&["a", "b"]));
}

#[test]
fn carriage_return_line_feed_ends_a_line() {
    let buffer = Buffer::new(None, Some(chars_of("a\r\nb")));
    assert_eq!(buffer.lines, text(&["a", "b"]));
}

#[test]
fn empty_content_yields_one_empty_line() {
    let buffer = Buffer::new(None, Some(chars_of("")));
    assert_eq!(buffer.lines, text(&[""]));
}

#[test]
fn a_lone_newline_yields_one_empty_line() {
    let buffer = Buffer::new(None, Some(chars_of("\n")));
    assert_eq!(buffer.lines, text(&[""]));
}

#[test]
fn blank_lines_are_kept_between_breaks() {
    let buffer = Buffer::new(None, Some(chars_of("a\n\nb")));
    assert_eq!(buffer.lines, text(&["a", "", "b"]));
}

#[test]
fn the_source_is_remembered() {
    let buffer = Buffer::new(Some(String::from("notes.txt")), Some(chars_of("x")));
    assert_eq!(buffer.source, Some(String::from("notes.txt")));
}

#[test]
fn insert_char_inserts_at_the_offset() {
    let mut buffer = Buffer::new(None, Some(chars_of("hllo")));
    buffer.insert_char(0, 1, 'e');
    assert_eq!(buffer.lines, text(&["hello"]));
}

#[test]
fn remove_char_before_removes_left_of_the_offset() {
    let mut buffer = Buffer::new(None, Some(chars_of("heello")));
    buffer.remove_char_before(0, 2);
    assert_eq!(buffer.lines, text(&["hello"]));
}

#[test]
fn remove_char_before_at_line_start_changes_nothing() {
    let mut buffer = Buffer::new(None, Some(chars_of("hello")));
    buffer.remove_char_before(0, 0);
    assert_eq!(buffer.lines, text(&["hello"]));
}

#[test]
fn split_line_keeps_prefix_and_moves_suffix_below() {
    let mut buffer = Buffer::new(None, Some(chars_of("hello world")));
    buffer.split_line(0, 5);
    assert_eq!(buffer.lines, text(&["hello", " world"]));
}

#[test]
fn repeated_move_left_stops_at_column_zero() {
    let mut app = app_with("abc");
    app.handle_action(Action::MoveRight);
    app.handle_action(Action::MoveRight);
    assert_eq!(cursor(&app), (2, 0));

    app.handle_action(Action::MoveLeft);
    app.handle_action(Action::MoveLeft);
    assert_eq!(cursor(&app), (0, 0));

    app.handle_action(Action::MoveLeft);
    assert_eq!(cursor(&app), (0, 0));
}

#[test]
fn repeated_move_down_stops_at_the_last_line() {
    let mut app = app_with("a\nb\nc");
    app.handle_action(Action::MoveDown);
    app.handle_action(Action::MoveDown);
    assert_eq!(cursor(&app), (0, 2));

    app.handle_action(Action::MoveDown);
    assert_eq!(cursor(&app), (0, 2));
}

#[test]
fn move_up_stops_at_the_first_line() {
    let mut app = app_with("a\nb");
    app.handle_action(Action::MoveDown);
    app.handle_action(Action::MoveUp);
    app.handle_action(Action::MoveUp);
    assert_eq!(cursor(&app), (0, 0));
}

#[test]
fn move_right_stops_one_past_the_last_character() {
    let mut app = app_with("ab");
    app.handle_action(Action::MoveRight);
    app.handle_action(Action::MoveRight);
    app.handle_action(Action::MoveRight);
    assert_eq!(cursor(&app), (2, 0));
}

#[test]
fn moving_to_a_shorter_line_clamps_the_column() {
    let mut app = app_with("long line\nab");
    for _ in 0..5 {
        app.handle_action(Action::MoveRight);
    }
    assert_eq!(cursor(&app), (5, 0));

    app.handle_action(Action::MoveDown);
    assert_eq!(cursor(&app), (2, 1));
}

#[test]
fn write_then_back_restores_line_and_cursor() {
    let mut app = app_with("hello");
    app.handle_action(Action::MoveRight);
    app.handle_action(Action::MoveRight);
    assert_eq!(cursor(&app), (2, 0));

    app.handle_action(Action::Write('x'));
    assert_eq!(lines(&app), &text(&["hexllo"]));
    assert_eq!(cursor(&app), (3, 0));

    app.handle_action(Action::Back);
    assert_eq!(lines(&app), &text(&["hello"]));
    assert_eq!(cursor(&app), (2, 0));
}

#[test]
fn back_at_column_zero_is_a_no_op() {
    let mut app = app_with("hello");
    app.handle_action(Action::Back);
    assert_eq!(lines(&app), &text(&["hello"]));
    assert_eq!(cursor(&app), (0, 0));
}

#[test]
fn return_splits_the_line_at_the_cursor() {
    let mut app = app_with("hello world");
    for _ in 0..5 {
        app.handle_action(Action::MoveRight);
    }
    app.handle_action(Action::Return);

    assert_eq!(lines(&app), &text(&["hello", " world"]));
    assert_eq!(cursor(&app), (0, 1));
}

#[test]
fn return_at_line_end_opens_an_empty_line() {
    let mut app = app_with("ab");
    app.handle_action(Action::MoveRight);
    app.handle_action(Action::MoveRight);
    app.handle_action(Action::Return);

    assert_eq!(lines(&app), &text(&["ab", ""]));
    assert_eq!(cursor(&app), (0, 1));
}

#[test]
fn typing_into_an_empty_buffer_end_to_end() {
    let mut app = scratch_app(Mode::Normal);

    app.handle_action(Action::ChangeMode(Mode::Insert));
    app.handle_action(Action::Write('h'));
    app.handle_action(Action::Write('i'));
    app.handle_action(Action::Write('!'));
    app.handle_action(Action::ChangeMode(Mode::Normal));

    assert_eq!(lines(&app), &text(&["hi!"]));
    assert_eq!(app.mode, Mode::Normal);
    assert_eq!(cursor(&app), (3, 0));
}

#[test]
fn movement_keeps_the_cursor_inside_the_window() {
    let mut app = app_with("a\nb\nc\nd\ne");
    app.resize(4, 2);

    for _ in 0..4 {
        app.handle_action(Action::MoveDown);
    }
    let vp = &app.viewports[app.current_viewport];
    assert_eq!(vp.cursor_y, 4);
    assert!(vp.start_row <= vp.cursor_y && vp.cursor_y < vp.start_row + vp.height);
    assert_eq!(vp.start_row, 3);

    for _ in 0..4 {
        app.handle_action(Action::MoveUp);
    }
    let vp = &app.viewports[app.current_viewport];
    assert_eq!(vp.cursor_y, 0);
    assert_eq!(vp.start_row, 0);
}

#[test]
fn long_lines_scroll_the_window_sideways() {
    let mut app = app_with("abcdefgh");
    app.resize(3, 1);

    for _ in 0..5 {
        app.handle_action(Action::MoveRight);
    }
    let vp = &app.viewports[app.current_viewport];
    assert_eq!(vp.cursor_x, 5);
    assert!(vp.start_column <= vp.cursor_x && vp.cursor_x < vp.start_column + vp.width);
    assert_eq!(vp.start_column, 3);
}

#[test]
fn the_frame_shows_the_visible_slice() {
    let mut app = app_with("hello\nworld\nagain");
    app.resize(10, 2);

    let frame = app.draw();
    assert_eq!(frame.visible_lines, text(&["hello", "world"]));
    assert_eq!((frame.cursor_screen_x, frame.cursor_screen_y), (0, 0));
    assert_eq!((frame.width, frame.height), (10, 2));
}

#[test]
fn the_frame_follows_the_scroll() {
    let mut app = app_with("hello\nworld\nagain");
    app.resize(10, 2);
    app.handle_action(Action::MoveDown);
    app.handle_action(Action::MoveDown);

    let frame = app.draw();
    assert_eq!(frame.visible_lines, text(&["world", "again"]));
    assert_eq!((frame.cursor_screen_x, frame.cursor_screen_y), (0, 1));
}

#[test]
fn the_frame_slices_lines_from_the_horizontal_offset() {
    let mut app = app_with("abcdefgh\nxy");
    app.resize(3, 2);
    for _ in 0..5 {
        app.handle_action(Action::MoveRight);
    }

    let frame = app.draw();
    assert_eq!(frame.visible_lines, text(&["defgh", ""]));
    assert_eq!((frame.cursor_screen_x, frame.cursor_screen_y), (2, 0));
}

#[test]
fn normal_mode_maps_movement_keys() {
    let mode = Mode::Normal;
    assert_eq!(handle_event(Key::Char('h'), &mode), Some(Action::MoveLeft));
    assert_eq!(handle_event(Key::Char('l'), &mode), Some(Action::MoveRight));
    assert_eq!(handle_event(Key::Char('k'), &mode), Some(Action::MoveUp));
    assert_eq!(handle_event(Key::Char('j'), &mode), Some(Action::MoveDown));
    assert_eq!(handle_event(Key::Left, &mode), Some(Action::MoveLeft));
    assert_eq!(handle_event(Key::Right, &mode), Some(Action::MoveRight));
    assert_eq!(handle_event(Key::Up, &mode), Some(Action::MoveUp));
    assert_eq!(handle_event(Key::Down, &mode), Some(Action::MoveDown));
}

#[test]
fn normal_mode_ignores_other_keys() {
    let mode = Mode::Normal;
    assert_eq!(handle_event(Key::Char('x'), &mode), None);
    assert_eq!(handle_event(Key::Enter, &mode), None);
    assert_eq!(handle_event(Key::Backspace, &mode), None);
    assert_eq!(handle_event(Key::Esc, &mode), None);
    assert_eq!(handle_event(Key::Other, &mode), None);
}

#[test]
fn insert_mode_maps_editing_keys() {
    let mode = Mode::Insert;
    assert_eq!(handle_event(Key::Char('q'), &mode), Some(Action::Write('q')));
    assert_eq!(handle_event(Key::Enter, &mode), Some(Action::Return));
    assert_eq!(handle_event(Key::Backspace, &mode), Some(Action::Back));
    assert_eq!(
        handle_event(Key::Esc, &mode),
        Some(Action::ChangeMode(Mode::Normal))
    );
    assert_eq!(handle_event(Key::Other, &mode), None);
}

#[test]
fn quit_changes_nothing() {
    let mut app = app_with("ab");
    app.handle_action(Action::MoveRight);
    let before_cursor = cursor(&app);
    let before_lines = lines(&app).clone();

    app.handle_action(Action::Quit);

    assert_eq!(cursor(&app), before_cursor);
    assert_eq!(lines(&app), &before_lines);
    assert_eq!(app.mode, Mode::Normal);
}
