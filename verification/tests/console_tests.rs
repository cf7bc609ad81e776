use gromrik::console::{
    gui_commands, history_down, history_up, next_label, parse_command, tab_completion, text_less, tui_commands,
    ActionKind, ConsoleContext,
};
use gromrik::gui::GuiState;
use gromrik::tui::{get_text_dimensions, wrap_and_indent_text, TuiState};

fn labels() -> Vec<String> {
    vec!["gromrik".to_string(), "lyranis".to_string(), "commoner".to_string(), "gremlin".to_string()]
}

fn ctx() -> ConsoleContext {
    ConsoleContext {
        persona_name: "Gromrik".to_string(),
        dismissal: "Go away!".to_string(),
        history_file: "history/history.json".to_string(),
        personas: vec!["gromrik".to_string(), "lyranis".to_string()],
    }
}

#[test]
fn text_order_is_string_order() {
    for (a, b) in [("a", "b"), ("ab", "a"), ("", "a"), ("a", ""), ("gromrik", "gremlin"), ("\u{e9}", "z"), ("x", "x")] {
        assert_eq!(text_less(a, b), a < b, "{:?} {:?}", a, b);
    }
}

#[test]
fn persona_labels_complete_in_order_and_wrap() {
    let l = labels();
    assert_eq!(next_label(&l, "g"), Some("gremlin".to_string()));
    assert_eq!(next_label(&l, "gremlin"), Some("gremlin".to_string()));
    assert_eq!(next_label(&l, "gromrik"), Some("gromrik".to_string()));
    let cased = vec!["gromrik".to_string(), "Gromrik".to_string(), "lyranis".to_string()];
    assert_eq!(next_label(&cased, "g"), Some("Gromrik".to_string()));
    assert_eq!(next_label(&cased, "Gromrik"), Some("gromrik".to_string()));
    assert_eq!(next_label(&cased, "gromrik"), Some("Gromrik".to_string()));
    assert_eq!(next_label(&l, ""), Some("commoner".to_string()));
    assert_eq!(next_label(&l, "LY"), Some("lyranis".to_string()));
    assert_eq!(next_label(&l, "zz"), None);
}

#[test]
fn tab_completes_commands_and_files() {
    let l = labels();
    let t = tui_commands();
    let g = gui_commands();
    let hf = "history/history.json";
    assert_eq!(tab_completion("/persona g", &l, hf, &t), Some("/persona gremlin".to_string()));
    assert_eq!(tab_completion("/PERSONA gromrik", &l, hf, &t), Some("/persona gromrik".to_string()));
    assert_eq!(tab_completion("/persona x", &l, hf, &t), None);
    assert_eq!(tab_completion("/load ", &l, hf, &t), Some("/load history/history.json".to_string()));
    assert_eq!(tab_completion("/save   ", &l, hf, &t), Some("/save history/history.json".to_string()));
    assert_eq!(tab_completion("/load mine.json", &l, hf, &t), None);
    assert_eq!(tab_completion("/cl", &l, hf, &t), Some("/clear".to_string()));
    assert_eq!(tab_completion("/pe", &l, hf, &t), Some("/persona ".to_string()));
    assert_eq!(tab_completion("/s", &l, hf, &t), Some("/save ".to_string()));
    assert_eq!(tab_completion("/s", &l, hf, &g), Some("/scene ".to_string()));
    assert_eq!(tab_completion("/clear", &l, hf, &t), None);
    assert_eq!(tab_completion("/", &l, hf, &t), None);
    assert_eq!(tab_completion("/zz", &l, hf, &t), None);
    assert_eq!(tab_completion("hello", &l, hf, &t), None);
}

#[test]
fn walking_through_earlier_inputs() {
    let inputs = vec!["one".to_string(), "two".to_string()];
    assert_eq!(history_up(&inputs, 2, &"x".to_string()), (1, "two".to_string()));
    assert_eq!(history_up(&inputs, 0, &"x".to_string()), (0, "x".to_string()));
    assert_eq!(history_down(&inputs, 0, &"one".to_string()), (1, "two".to_string()));
    assert_eq!(history_down(&inputs, 1, &"two".to_string()), (2, "".to_string()));
    assert_eq!(history_down(&vec![], 0, &"x".to_string()), (0, "x".to_string()));
}

#[test]
fn commands_are_parsed() {
    assert_eq!(parse_command("/Save  my  file.json"), ("/save".to_string(), true, "my file.json".to_string()));
    assert_eq!(parse_command("/help"), ("/help".to_string(), false, "".to_string()));
}

#[test]
fn tui_sends_a_line() {
    let c = ctx();
    let mut s = TuiState::new(&"Gromrik".to_string(), &"Bah!".to_string());
    for ch in "  hello ".chars() {
        s.on_char(ch);
    }
    let a = s.on_enter(&c);
    assert_eq!(a.kind, ActionKind::Chat);
    assert_eq!(a.arg, "hello");
    assert!(s.is_answering);
    assert!(s.input.is_empty());
    assert_eq!(s.input_history, vec!["hello".to_string()]);
    assert_eq!(s.input_index, 1);
    assert_eq!(s.history_lines.last().unwrap(), &("You".to_string(), "hello".to_string()));
    s.on_char('x');
    assert!(s.input.is_empty());
    s.begin_frame();
    s.on_token("Bah, ");
    s.on_token("go.");
    s.on_finished(&c);
    assert!(!s.is_answering);
    assert_eq!(s.history_lines.last().unwrap(), &("Gromrik".to_string(), "Bah, go.".to_string()));
}

#[test]
fn tui_dismisses_when_nothing_came() {
    let c = ctx();
    let mut s = TuiState::new(&"Gromrik".to_string(), &"Bah!".to_string());
    s.input = "hi".to_string();
    s.on_enter(&c);
    s.begin_frame();
    s.on_finished(&c);
    assert_eq!(s.history_lines.last().unwrap(), &("Gromrik".to_string(), "Go away!".to_string()));
    let n = s.history_lines.len();
    s.on_finished(&c);
    assert_eq!(s.history_lines.len(), n);
}

#[test]
fn tui_commands_answer() {
    let c = ctx();
    let mut s = TuiState::new(&"Gromrik".to_string(), &"Bah!".to_string());
    s.input = "/persona nobody".to_string();
    assert_eq!(s.on_enter(&c).kind, ActionKind::Nothing);
    assert_eq!(s.history_lines.last().unwrap().1, "Please provide a valid persona: gromrik,lyranis");
    assert_eq!(s.input, "/persona nobody");
    s.input = "/persona lyranis".to_string();
    let a = s.on_enter(&c);
    assert_eq!((a.kind, a.arg.as_str()), (ActionKind::SwitchPersona, "lyranis"));
    s.input = "/save".to_string();
    let a = s.on_enter(&c);
    assert_eq!((a.kind, a.arg.as_str()), (ActionKind::Save, "history/history.json"));
    s.on_saved(&a.arg, Ok(()));
    assert_eq!(s.history_lines.last().unwrap(), &("System".to_string(), "History successfully saved to history/history.json.".to_string()));
    s.input = "/load old one.json".to_string();
    let a = s.on_enter(&c);
    assert_eq!((a.kind, a.arg.as_str()), (ActionKind::Load, "old one.json"));
    s.on_loaded(&a.arg, Err("missing".to_string()));
    assert_eq!(s.history_lines.last().unwrap().1, "Load error: missing");
    s.on_loaded("f.json", Ok(vec![("You".to_string(), "a".to_string())]));
    assert_eq!(s.history_lines, vec![("You".to_string(), "a".to_string()), ("System".to_string(), "History loaded from f.json successfully.".to_string())]);
    s.input = "/bogus".to_string();
    s.on_enter(&c);
    assert_eq!(s.history_lines.last().unwrap().1, "Unknown command: '/bogus'. Type /help for available commands.");
    s.input = "/help".to_string();
    s.on_enter(&c);
    let help = &s.history_lines.last().unwrap().1;
    assert!(help.starts_with("Available Commands:\n\n/help  - Display this utility command list.\n"));
    assert!(help.contains("'persona' must be one of gromrik,lyranis.\n/exit"));
    assert!(help.ends_with("/load [filename]  - Restore session and model context from a file.\n"));
    s.input = "/clear".to_string();
    s.on_enter(&c);
    assert!(s.history_lines.is_empty());
    s.input = "Quit".to_string();
    assert_eq!(s.on_enter(&c).kind, ActionKind::Exit);
    s.input = "/EXIT".to_string();
    assert_eq!(s.on_enter(&c).kind, ActionKind::Exit);
    s.input = "/reset".to_string();
    assert_eq!(s.on_enter(&c).kind, ActionKind::Reset);
}

#[test]
fn tui_keys_move_and_scroll() {
    let c = ctx();
    let mut s = TuiState::new(&"Gromrik".to_string(), &"Bah!".to_string());
    s.input = "/cl".to_string();
    s.on_tab(&c);
    assert_eq!(s.input, "/clear");
    s.on_backspace();
    assert_eq!(s.input, "/clea");
    s.input = "/help".to_string();
    s.on_enter(&c);
    s.input = "/clear".to_string();
    s.on_enter(&c);
    s.on_up();
    assert_eq!(s.input, "/clear");
    s.on_up();
    assert_eq!(s.input, "/help");
    s.on_up();
    assert_eq!(s.input, "/help");
    s.on_down();
    assert_eq!(s.input, "/clear");
    s.on_down();
    assert_eq!(s.input, "");
    assert_eq!(s.input_index, 2);
    s.clamp_scroll(30, 10);
    assert_eq!(s.scroll_offset, 20);
    s.on_page_up();
    assert!(s.user_scrolled);
    assert_eq!(s.scroll_offset, 19);
    s.clamp_scroll(30, 10);
    assert_eq!(s.scroll_offset, 19);
    s.on_page_down();
    s.on_page_down();
    s.clamp_scroll(30, 10);
    assert_eq!(s.scroll_offset, 20);
    s.clamp_scroll(5, 10);
    assert_eq!(s.scroll_offset, 0);
    assert!(!s.user_scrolled);
}

#[test]
fn gui_finished_keeps_only_real_answers() {
    let c = ctx();
    let mut s = GuiState::new(&"Gromrik".to_string(), &"Bah!".to_string());
    s.input = "  hi ".to_string();
    let a = s.on_enter(&c);
    assert_eq!((a.kind, a.arg.as_str()), (ActionKind::Chat, "hi"));
    assert!(s.scroll_to_bottom);
    s.begin_frame();
    s.on_token("   ");
    s.on_finished(&c);
    assert_eq!(s.history_lines.last().unwrap(), &("You".to_string(), "hi".to_string()));
    assert!(!s.is_answering);
    s.begin_frame();
    s.on_finished(&c);
    assert_eq!(s.history_lines.last().unwrap(), &("Gromrik".to_string(), "Go away!".to_string()));
}

#[test]
fn gui_scene_and_focus() {
    let c = ctx();
    let mut s = GuiState::new(&"Gromrik".to_string(), &"Bah!".to_string());
    s.input = "/scene  A dark  forge".to_string();
    let a = s.on_enter(&c);
    assert_eq!((a.kind, a.arg.as_str()), (ActionKind::SetScene, "A dark forge"));
    assert_eq!(s.history_lines.last().unwrap().1, "Scene has been set to: A dark forge");
    s.input = "/scene".to_string();
    assert_eq!(s.on_enter(&c).kind, ActionKind::Nothing);
    assert_eq!(s.history_lines.last().unwrap().1, "Please provide a scene.");
    assert_eq!(s.input, "/scene");
    s.input = "   ".to_string();
    assert_eq!(s.on_enter(&c).kind, ActionKind::Nothing);
    assert_eq!(s.input, "   ");
    assert!(!s.take_first_focus(false));
    assert!(s.take_first_focus(true));
    assert!(!s.take_first_focus(true));
    s.input = "/s".to_string();
    s.on_tab(&c);
    assert_eq!(s.input, "/scene ");
}

#[test]
fn text_is_wrapped_for_the_terminal() {
    let out = wrap_and_indent_text("one two three four\n\n  five", 12);
    assert_eq!(out, vec!["  one two".to_string(), "  three four".to_string(), "".to_string(), "  five".to_string()]);
    let out = wrap_and_indent_text("abcdefghijklmnop", 8);
    assert_eq!(out, vec!["  ".to_string(), "  abcdefghijklmnop".to_string()]);
    assert!(wrap_and_indent_text("", 10).is_empty());
}

#[test]
fn text_image_size() {
    assert_eq!(get_text_dimensions("ab\nabcd\n\u{e9}"), (4, 3));
    assert_eq!(get_text_dimensions(""), (0, 0));
}

#[test]
fn wrapped_lines_fit_the_column() {
    let text = "Bah! Why are you bothering me, you gangly excuse for a\n\nhumanoid? Unbelievablylongwordhere and more.";
    for width in [10usize, 20, 33] {
        for line in wrap_and_indent_text(text, width) {
            assert!(line.len() <= width || !line[2..].contains(' '), "{:?} {}", line, width);
        }
    }
}

#[test]
fn scrolling_stays_within_the_text() {
    let mut s = TuiState::new(&"Gromrik".to_string(), &"Bah!".to_string());
    s.clamp_scroll(30, 10);
    assert_eq!(s.scroll_offset, 20);
    s.on_page_up();
    s.on_page_up();
    assert!(s.user_scrolled);
    s.clamp_scroll(30, 10);
    assert_eq!(s.scroll_offset, 18);
    s.scroll_offset = 50;
    s.clamp_scroll(30, 10);
    assert_eq!(s.scroll_offset, 20);
    s.clamp_scroll(5, 10);
    assert_eq!(s.scroll_offset, 0);
    assert!(!s.user_scrolled);
}

#[test]
fn down_after_up_comes_back() {
    let inputs = vec!["one".to_string(), "two".to_string(), "three".to_string()];
    for index in 1..=3usize {
        let (i1, t1) = history_up(&inputs, index, &"typed".to_string());
        assert_eq!(i1, index - 1);
        let (i2, t2) = history_down(&inputs, i1, &t1);
        assert_eq!(i2, index);
        let expected = if index < 3 { inputs[index].clone() } else { String::new() };
        assert_eq!(t2, expected);
    }
}

#[test]
fn wrapping_keeps_every_word_in_order() {
    let text = "Bah! Why are\tyou bothering me,\r\n\n   you gangly\u{a0}excuse for a humanoid?";
    let want: Vec<String> = text.lines().flat_map(|l| l.split_whitespace().map(String::from).collect::<Vec<_>>()).collect();
    for width in [5usize, 12, 40] {
        let got: Vec<String> = wrap_and_indent_text(text, width)
            .iter()
            .flat_map(|l| l.split_whitespace().map(String::from).collect::<Vec<_>>())
            .collect();
        assert_eq!(got, want);
    }
}
