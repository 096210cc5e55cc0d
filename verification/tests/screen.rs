use tip::component::{Component, ComponentDataOut, ComponentPromptOut, ComponentRenderOut};
use tip::event::{termination, TerminalRendererEvent};
use tip::input::{TerminalEscape, TerminalInput};
use tip::process::{SupervisorEvent, UiWaitingProcess};
use tip::prompt::UiPrompt;
use tip::render::{
    find_line_end, rows_for, strip_cr, Dispatch, TerminalRenderState, TerminalRenderer,
    WindowSize, CHEVRON_LEN,
};

type Renderer = TerminalRenderer<UiPrompt, UiWaitingProcess>;

const CLEAR: &str = "\x1b[2J\x1b[H\x1b[39m\x1b[49m\x1b[0m";
const HIDE: &str = "\x1b[?25l";
const SHOW: &str = "\x1b[?25h";

fn bare(rows: u16, cols: u16) -> Renderer {
    TerminalRenderer::new(Vec::new(), WindowSize { rows, cols }, true)
}

fn state(left_lines: usize) -> TerminalRenderState {
    TerminalRenderState { left_lines, cursor_line: 1, cursor_col: 1 }
}

fn prompt_out(query: &str, cursor_index: usize) -> ComponentPromptOut {
    ComponentPromptOut { query: query.chars().collect(), cursor_index }
}

fn paint_data(rows_left: usize, cols: u16, data: &[u8]) -> (String, TerminalRenderState) {
    let mut renderer = bare(24, cols);
    let mut state = state(rows_left);
    renderer.render_component_data(&ComponentDataOut(data.to_vec()), &mut state);
    (String::from_utf8(renderer.terminal_writer.flush()).unwrap(), state)
}

fn session(query: &str, output: &[u8], rows: u16, cols: u16) -> Renderer {
    let mut prompt = UiPrompt::new();
    for ch in query.chars() {
        prompt.add_character(ch);
    }
    let mut process = UiWaitingProcess::new("cmd".to_string(), Vec::new(), None);
    process.start();
    process.handle(SupervisorEvent::Spawned);
    process.read_child_stream(1, output);
    TerminalRenderer::new(
        vec![Component::Prompt(prompt), Component::Data(process)],
        WindowSize { rows, cols },
        true,
    )
}

fn stop(input: &TerminalInput) -> bool {
    termination(input).is_some()
}

#[test]
fn chevron_is_two_columns() {
    assert_eq!(CHEVRON_LEN, 2);
}

#[test]
fn render_state_starts_with_all_rows() {
    let fresh = TerminalRenderState::new(&WindowSize { rows: 24, cols: 80 });
    assert_eq!(fresh, TerminalRenderState { left_lines: 24, cursor_line: 1, cursor_col: 1 });
}

#[test]
fn window_shows_the_start_while_the_cursor_is_in_it() {
    let source: Vec<char> = "abcdef".chars().collect();
    assert_eq!(Renderer::window_str(&source, 4, 0), ['a', 'b', 'c', 'd']);
    assert_eq!(Renderer::window_str(&source, 4, 2), ['a', 'b', 'c', 'd']);
    assert_eq!(Renderer::window_str(&source, 4, 3), ['a', 'b', 'c', 'd']);
    assert_eq!(Renderer::window_str(&source, 10, 3), ['a', 'b', 'c', 'd', 'e', 'f']);
    assert_eq!(Renderer::window_str(&source, 6, 5), ['a', 'b', 'c', 'd', 'e', 'f']);
}

#[test]
fn window_ends_at_the_cursor_once_it_is_past_the_start() {
    let source: Vec<char> = "abcdef".chars().collect();
    assert_eq!(Renderer::window_str(&source, 4, 4), ['a', 'b', 'c', 'd']);
    assert_eq!(Renderer::window_str(&source, 4, 5), ['b', 'c', 'd', 'e']);
    assert_eq!(Renderer::window_str(&source, 4, 6), ['c', 'd', 'e', 'f']);
    assert_eq!(Renderer::window_str(&source, 6, 6), ['a', 'b', 'c', 'd', 'e', 'f']);
    assert_eq!(Renderer::window_str(&source, 1, 6), ['f']);
}

#[test]
fn window_without_room_is_empty() {
    let source: Vec<char> = "abc".chars().collect();
    assert_eq!(Renderer::window_str(&source, 0, 0), []);
    assert_eq!(Renderer::window_str(&source, 0, 3), []);
    assert_eq!(Renderer::window_str(&[], 5, 0), []);
}

#[test]
fn prompt_line_is_chevron_and_query() {
    let mut renderer = bare(24, 80);
    let mut state = state(24);
    renderer.render_component_prompt(&prompt_out("abc", 3), &mut state);
    assert_eq!(renderer.terminal_writer.flush(), b"> abc");
    assert_eq!(state, TerminalRenderState { left_lines: 23, cursor_line: 1, cursor_col: 6 });
}

#[test]
fn prompt_cursor_column_is_index_plus_chevron_plus_one() {
    let mut renderer = bare(24, 80);
    let mut state = TerminalRenderState { left_lines: 5, cursor_line: 9, cursor_col: 9 };
    renderer.render_component_prompt(&prompt_out("abc", 0), &mut state);
    assert_eq!(state, TerminalRenderState { left_lines: 4, cursor_line: 1, cursor_col: 3 });
    renderer.render_component_prompt(&prompt_out("abc", 1), &mut state);
    assert_eq!(state, TerminalRenderState { left_lines: 3, cursor_line: 1, cursor_col: 4 });
}

#[test]
fn prompt_scrolls_with_the_cursor() {
    let mut renderer = bare(24, 6);
    let mut state = state(24);
    renderer.render_component_prompt(&prompt_out("abcdefgh", 8), &mut state);
    assert_eq!(renderer.terminal_writer.flush(), b"> efgh");
    assert_eq!(state.cursor_col, 11);
    renderer.render_component_prompt(&prompt_out("abcdefgh", 2), &mut state);
    assert_eq!(renderer.terminal_writer.flush(), b"> abcd");
    renderer.render_component_prompt(&prompt_out("abcdefgh", 5), &mut state);
    assert_eq!(renderer.terminal_writer.flush(), b"> bcde");
}

#[test]
fn prompt_writes_characters_in_utf8() {
    let mut renderer = bare(24, 80);
    let mut state = state(24);
    renderer.render_component_prompt(&prompt_out("h\u{e9}\u{2500}", 3), &mut state);
    assert_eq!(renderer.terminal_writer.flush(), "> h\u{e9}\u{2500}".as_bytes());
}

#[test]
fn prompt_in_a_window_too_narrow_for_the_chevron() {
    for cols in 0..3 {
        let mut renderer = bare(1, cols);
        let mut state = state(0);
        renderer.render_component_prompt(&prompt_out("abc", 2), &mut state);
        assert_eq!(renderer.terminal_writer.flush(), b"> ");
        assert_eq!(state, TerminalRenderState { left_lines: 0, cursor_line: 1, cursor_col: 5 });
    }
}

#[test]
fn line_ends_are_found() {
    assert_eq!(find_line_end(b"ab\ncd", 0), 2);
    assert_eq!(find_line_end(b"ab\ncd", 2), 2);
    assert_eq!(find_line_end(b"ab\ncd", 3), 5);
    assert_eq!(find_line_end(b"ab\ncd", 5), 5);
    assert_eq!(find_line_end(b"", 0), 0);
    assert_eq!(find_line_end(b"\n\n", 0), 0);
    assert_eq!(find_line_end(b"\n\n", 1), 1);
}

#[test]
fn carriage_returns_are_stripped() {
    assert_eq!(strip_cr(b"a\rb\r"), b"ab");
    assert_eq!(strip_cr(b"\r\r"), b"");
    assert_eq!(strip_cr(b"abc"), b"abc");
    assert_eq!(strip_cr(b""), b"");
}

#[test]
fn rows_are_width_over_columns_rounded_up() {
    assert_eq!(rows_for(0, 10), 1);
    assert_eq!(rows_for(1, 10), 1);
    assert_eq!(rows_for(10, 10), 1);
    assert_eq!(rows_for(11, 10), 2);
    assert_eq!(rows_for(20, 10), 2);
    assert_eq!(rows_for(21, 10), 3);
    assert_eq!(rows_for(5, 1), 5);
    assert_eq!(rows_for(usize::MAX, 1), usize::MAX);
    assert_eq!(rows_for(usize::MAX, 2), usize::MAX / 2 + 1);
    assert_eq!(rows_for(65536, 65535), 2);
    assert_eq!(rows_for(0, 0), 1);
    assert_eq!(rows_for(7, 0), 1);
}

#[test]
fn separator_has_one_dash_for_each_column() {
    for cols in [0u16, 1, 7, 80] {
        let (text, _) = paint_data(1, cols, b"ignored");
        assert_eq!(text, format!("\r\n{}", "\u{2500}".repeat(cols as usize)));
    }
}

#[test]
fn output_is_written_line_by_line() {
    let (text, state) = paint_data(10, 10, b"apple\nbanana\ncarrot");
    assert_eq!(
        text,
        format!("\r\n{}\r\napple\r\nbanana\r\ncarrot", "\u{2500}".repeat(10))
    );
    assert_eq!(state, TerminalRenderState { left_lines: 6, cursor_line: 1, cursor_col: 1 });
}

#[test]
fn output_that_ends_in_a_line_feed_ends_in_an_empty_line() {
    let (text, state) = paint_data(10, 4, b"a\nb\n");
    assert_eq!(text, "\r\n\u{2500}\u{2500}\u{2500}\u{2500}\r\na\r\nb\r\n");
    assert_eq!(state.left_lines, 6);
}

#[test]
fn empty_output_is_one_empty_line() {
    let (text, state) = paint_data(5, 2, b"");
    assert_eq!(text, "\r\n\u{2500}\u{2500}\r\n");
    assert_eq!(state.left_lines, 3);
}

#[test]
fn carriage_returns_do_not_reach_the_screen() {
    let (text, _) = paint_data(10, 3, b"a\r\nb\rc\r\n");
    assert_eq!(text, "\r\n\u{2500}\u{2500}\u{2500}\r\na\r\nbc\r\n");
}

#[test]
fn a_long_line_takes_several_rows() {
    let (text, state) = paint_data(10, 4, b"abcdefghij\nx");
    assert_eq!(text, "\r\n\u{2500}\u{2500}\u{2500}\u{2500}\r\nabcdefghij\r\nx");
    assert_eq!(state.left_lines, 10 - 1 - 3 - 1);
}

#[test]
fn a_line_that_fills_the_last_rows_is_written_whole() {
    let (text, state) = paint_data(4, 4, b"abcdefghij\nx");
    assert_eq!(text, "\r\n\u{2500}\u{2500}\u{2500}\u{2500}\r\nabcdefghij");
    assert_eq!(state.left_lines, 0);
}

#[test]
fn a_line_too_long_for_the_rows_left_is_cut_to_them() {
    let (text, state) = paint_data(3, 4, b"abcdefghij\nx");
    assert_eq!(text, "\r\n\u{2500}\u{2500}\u{2500}\u{2500}\r\nabcdefgh");
    assert_eq!(state.left_lines, 0);
    let (text, _) = paint_data(2, 4, b"abcdefghij\nx");
    assert_eq!(text, "\r\n\u{2500}\u{2500}\u{2500}\u{2500}\r\nabcd");
}

#[test]
fn painting_stops_when_the_rows_run_out() {
    let (text, state) = paint_data(3, 5, b"a\nb\nc\nd");
    assert_eq!(text, format!("\r\n{}\r\na\r\nb", "\u{2500}".repeat(5)));
    assert_eq!(state.left_lines, 0);
    let (text, _) = paint_data(1, 5, b"a\nb");
    assert_eq!(text, format!("\r\n{}", "\u{2500}".repeat(5)));
    let (text, state) = paint_data(0, 5, b"a\nb");
    assert_eq!(text, format!("\r\n{}", "\u{2500}".repeat(5)));
    assert_eq!(state.left_lines, 0);
}

#[test]
fn colour_sequences_take_no_columns() {
    let (text, state) = paint_data(10, 3, b"\x1b[31mredredred\x1b[0m\nx");
    assert_eq!(
        text,
        "\r\n\u{2500}\u{2500}\u{2500}\r\n\x1b[31mredredred\x1b[0m\r\nx"
    );
    assert_eq!(state.left_lines, 10 - 1 - 3 - 1);
}

#[test]
fn a_cut_line_keeps_its_colour_sequences_whole() {
    let (text, _) = paint_data(3, 3, b"\x1b[31mredred\x1b[0mredred");
    assert_eq!(text, "\r\n\u{2500}\u{2500}\u{2500}\r\n\x1b[31mredred\x1b[0m");
}

#[test]
fn data_leaves_the_cursor_where_the_prompt_put_it() {
    let mut renderer = bare(24, 10);
    let mut state = TerminalRenderState { left_lines: 5, cursor_line: 1, cursor_col: 7 };
    renderer.render_component_data(&ComponentDataOut(b"a".to_vec()), &mut state);
    assert_eq!(state, TerminalRenderState { left_lines: 3, cursor_line: 1, cursor_col: 7 });
}

#[test]
fn a_frame_is_cleared_painted_and_the_cursor_put_back() {
    let mut renderer = session("abc", b"apple\nbanana\n", 5, 10);
    let frame = String::from_utf8(renderer.rerender()).unwrap();
    let expected = format!(
        "{}{}> abc\r\n{}\r\napple\r\nbanana\r\n\x1b[1;6H{}",
        CLEAR,
        HIDE,
        "\u{2500}".repeat(10),
        SHOW
    );
    assert_eq!(frame, expected);
    assert_eq!(String::from_utf8(renderer.rerender()).unwrap(), expected);
}

#[test]
fn the_first_frame_follows_the_switch_to_the_alternate_screen() {
    let mut renderer: Renderer =
        TerminalRenderer::new(Vec::new(), WindowSize { rows: 2, cols: 2 }, false);
    let frame = String::from_utf8(renderer.rerender()).unwrap();
    assert_eq!(frame, format!("\x1b[?1049h\x1b[2J\x1b[H{}{}\x1b[1;1H{}", CLEAR, HIDE, SHOW));
    let frame = String::from_utf8(renderer.rerender()).unwrap();
    assert_eq!(frame, format!("{}{}\x1b[1;1H{}", CLEAR, HIDE, SHOW));
}

#[test]
fn draw_paints_what_it_is_given() {
    let mut renderer = bare(4, 3);
    let rendered = vec![
        ComponentRenderOut::Prompt(prompt_out("hello", 5)),
        ComponentRenderOut::Data(ComponentDataOut(b"12345\nabc".to_vec())),
    ];
    let frame = String::from_utf8(renderer.draw(&rendered)).unwrap();
    assert_eq!(
        frame,
        format!(
            "{}{}> o\r\n\u{2500}\u{2500}\u{2500}\r\n12345\x1b[1;8H{}",
            CLEAR, HIDE, SHOW
        )
    );
}

#[test]
fn components_are_asked_in_order() {
    let renderer = session("ab", b"out", 5, 10);
    assert_eq!(
        renderer.render_all(),
        vec![
            ComponentRenderOut::Prompt(prompt_out("ab", 2)),
            ComponentRenderOut::Data(ComponentDataOut(b"out".to_vec())),
        ]
    );
}

#[test]
fn a_resize_changes_the_next_frame_and_not_the_output() {
    let mut renderer = session("a", b"0123456789", 5, 10);
    let before = String::from_utf8(renderer.rerender()).unwrap();
    assert_eq!(
        before,
        format!("{}{}> a\r\n{}\r\n0123456789\x1b[1;4H{}", CLEAR, HIDE, "\u{2500}".repeat(10), SHOW)
    );
    assert_eq!(renderer.handle_event(TerminalRendererEvent::Resize, &mut stop), Dispatch::Resize);
    renderer.handle_size(WindowSize { rows: 4, cols: 4 });
    assert_eq!(renderer.size, WindowSize { rows: 4, cols: 4 });
    let after = String::from_utf8(renderer.rerender()).unwrap();
    assert_eq!(
        after,
        format!("{}{}> a\r\n{}\r\n01234567\x1b[1;4H{}", CLEAR, HIDE, "\u{2500}".repeat(4), SHOW)
    );
    match &renderer.components[1] {
        Component::Data(process) => {
            assert_eq!(tip::component::ComponentData::render(process).0, b"0123456789")
        }
        Component::Prompt(_) => panic!("the second component shows data"),
    }
}

#[test]
fn redraw_and_quit_touch_no_component() {
    let mut renderer = session("ab", b"out", 5, 10);
    assert_eq!(
        renderer.handle_event(TerminalRendererEvent::Redraw, &mut stop),
        Dispatch::Paint(Vec::new())
    );
    assert_eq!(renderer.handle_event(TerminalRendererEvent::Quit, &mut stop), Dispatch::Exit(None));
    assert_eq!(renderer.render_all()[0], ComponentRenderOut::Prompt(prompt_out("ab", 2)));
}

#[test]
fn a_keystroke_reaches_the_prompt_and_its_query_is_handed_on() {
    let mut renderer = session("", b"", 5, 10);
    for (key, query) in [(b'a', "a"), (b'b', "ab"), (b'c', "abc")] {
        let event = TerminalRendererEvent::Input(TerminalInput::Printable(key));
        assert_eq!(
            renderer.handle_event(event, &mut stop),
            Dispatch::Paint(vec![query.to_string()])
        );
    }
    let left = TerminalRendererEvent::Input(TerminalInput::Escape(TerminalEscape::LeftArrow));
    assert_eq!(renderer.handle_event(left, &mut stop), Dispatch::Paint(Vec::new()));
    assert_eq!(renderer.render_all()[0], ComponentRenderOut::Prompt(prompt_out("abc", 2)));
}

#[test]
fn every_prompt_gets_the_keystroke() {
    let mut renderer: Renderer = TerminalRenderer::new(
        vec![Component::Prompt(UiPrompt::new()), Component::Prompt(UiPrompt::new())],
        WindowSize { rows: 5, cols: 10 },
        true,
    );
    let event = TerminalRendererEvent::Input(TerminalInput::Printable(b'x'));
    assert_eq!(
        renderer.handle_event(event, &mut stop),
        Dispatch::Paint(vec!["x".to_string(), "x".to_string()])
    );
}

#[test]
fn a_stopping_keystroke_ends_the_loop_and_reaches_no_prompt() {
    let mut renderer = session("abc", b"", 5, 10);
    for input in [
        TerminalInput::Ctrl(b'm'),
        TerminalInput::Ctrl(b'c'),
        TerminalInput::Escape(TerminalEscape::Timeout),
    ] {
        assert_eq!(
            renderer.handle_event(TerminalRendererEvent::Input(input), &mut stop),
            Dispatch::Exit(Some(input))
        );
    }
    let mut never = |_: &TerminalInput| false;
    assert_eq!(
        renderer.handle_event(TerminalRendererEvent::Input(TerminalInput::Ctrl(b'm')), &mut never),
        Dispatch::Paint(Vec::new())
    );
    let mut always = |_: &TerminalInput| true;
    assert_eq!(
        renderer.handle_event(TerminalRendererEvent::Input(TerminalInput::Delete), &mut always),
        Dispatch::Exit(Some(TerminalInput::Delete))
    );
    assert_eq!(renderer.render_all()[0], ComponentRenderOut::Prompt(prompt_out("abc", 3)));
}

#[test]
fn the_stop_predicate_may_keep_count() {
    let mut renderer = session("", b"", 5, 10);
    let mut asked = 0;
    let mut counting = |input: &TerminalInput| {
        asked += 1;
        *input == TerminalInput::Ctrl(b'm')
    };
    for event in [
        TerminalRendererEvent::Input(TerminalInput::Printable(b'a')),
        TerminalRendererEvent::Redraw,
        TerminalRendererEvent::Resize,
        TerminalRendererEvent::Input(TerminalInput::Ctrl(b'm')),
        TerminalRendererEvent::Quit,
    ] {
        renderer.handle_event(event, &mut counting);
    }
    assert_eq!(asked, 2);
}

#[test]
fn finishing_gives_the_components_back() {
    let mut renderer = session("abc", b"out", 5, 10);
    renderer.rerender();
    let (components, bytes) = renderer.finish();
    assert_eq!(bytes, b"");
    assert_eq!(components.len(), 2);
    match &components[0] {
        Component::Prompt(prompt) => assert_eq!(prompt.get_string(), "abc"),
        Component::Data(_) => panic!("the first component is the prompt"),
    }
    let renderer: Renderer =
        TerminalRenderer::new(Vec::new(), WindowSize { rows: 5, cols: 10 }, false);
    let (_, bytes) = renderer.finish();
    assert_eq!(bytes, b"\x1b[?1049h\x1b[2J\x1b[H\x1b[2J\x1b[H\x1b[?1049l");
}

#[test]
fn typing_abc_and_return_accepts_the_query_abc() {
    let mut renderer = session("", b"", 24, 80);
    let mut sent = Vec::new();
    let mut ended = None;
    for byte in [b'a', b'b', b'c', b'\r'] {
        let mut decoder = tip::input::InputDecoder::new();
        let input = match decoder.feed(tip::input::TtyRead::Byte(byte)) {
            Ok(tip::input::Decoded::Input(input)) => input,
            other => panic!("no keystroke: {:?}", other),
        };
        match renderer.handle_event(TerminalRendererEvent::Input(input), &mut stop) {
            Dispatch::Paint(queries) => sent.extend(queries),
            Dispatch::Exit(by) => ended = by,
            Dispatch::Resize => panic!("no resize was asked for"),
        }
    }
    assert_eq!(sent, vec!["a".to_string(), "ab".to_string(), "abc".to_string()]);
    let by = ended.unwrap();
    assert_eq!(termination(&by), Some(tip::event::Exit::Accept));
    let (components, _) = renderer.finish();
    let query = match &components[0] {
        Component::Prompt(prompt) => prompt.get_string(),
        Component::Data(_) => panic!("the first component is the prompt"),
    };
    let last = tip::process::create_command("echo", &[], &query, &None);
    assert_eq!(last.program, "echo");
    assert_eq!(last.args, vec!["abc".to_string()]);
}
