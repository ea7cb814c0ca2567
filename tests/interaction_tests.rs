use lazymake::app::{App, TaskExecution};
use lazymake::interaction::{
    commands_with_params, get_help_text, history_view, Action, InputMode, Key,
};
use lazymake::parser::Parser;
use std::path::PathBuf;

fn strings(v: &[&str]) -> Vec<String> {
    v.iter().map(|s| s.to_string()).collect()
}

fn make_app(text: &str) -> App {
    let (tasks, ft) = Parser::parse_makefile(text);
    App::new(tasks, ft, PathBuf::from("."))
}

#[test]
fn params_are_trimmed_and_appended_to_every_command() {
    let cmds = strings(&["cargo test", "echo"]);
    assert_eq!(
        commands_with_params(&cmds, &"  --release ".to_string()),
        strings(&["cargo test --release", "echo --release"])
    );
    assert_eq!(commands_with_params(&cmds, &"   ".to_string()), cmds);
    assert_eq!(commands_with_params(&cmds, &String::new()), cmds);
}

#[test]
fn filter_mode_edits_and_refilters() {
    let mut app = make_app("build:\ntest:\nbench:\n");
    let (mode, _) = app.handle_key(InputMode::Normal, Key::Char('/'));
    assert_eq!(mode, InputMode::Filter);
    app.selected_index = 0;
    let mode = app.filter_key(Key::Char('t'));
    assert_eq!(mode, InputMode::Filter);
    assert_eq!(app.filter, "t");
    assert_eq!(app.filtered_tasks, vec![1]);
    let mode = app.filter_key(Key::Backspace);
    assert_eq!(mode, InputMode::Filter);
    assert_eq!(app.filter, "");
    assert_eq!(app.filtered_tasks, vec![0, 1, 2]);
    app.filter_key(Key::Char('b'));
    let mode = app.filter_key(Key::Enter);
    assert_eq!(mode, InputMode::Normal);
    assert_eq!(app.filter, "b");
    app.filter_key(Key::Esc);
    assert_eq!(app.filter, "");
    assert_eq!(app.filtered_tasks, vec![0, 1, 2]);
}

#[test]
fn filter_text_is_capped() {
    let mut app = make_app("a:\n");
    for _ in 0..60 {
        app.filter_key(Key::Char('é'));
    }
    assert_eq!(app.filter.chars().count(), 50);
}

#[test]
fn param_mode_edits_text() {
    let mut app = make_app("a:\n");
    let (mode, _) = app.normal_key(Key::Char('p'));
    assert_eq!(mode, InputMode::Params);
    for c in "x y".chars() {
        assert_eq!(app.param_key(Key::Char(c)), InputMode::Params);
    }
    assert_eq!(app.param_input, "x y");
    app.param_key(Key::Backspace);
    assert_eq!(app.param_input, "x ");
    assert_eq!(app.param_key(Key::Enter), InputMode::Normal);
    assert_eq!(app.param_input, "x ");
    assert_eq!(app.param_key(Key::Esc), InputMode::Normal);
    assert_eq!(app.param_input, "");
    for _ in 0..120 {
        app.param_key(Key::Char('z'));
    }
    assert_eq!(app.param_input.len(), 100);
}

#[test]
fn enter_requests_a_run_with_params() {
    let mut app = make_app("a:\n\techo a\nb:\n\techo b1\n\techo b2\n");
    app.move_selection_down();
    app.param_input = " -v ".to_string();
    let (mode, action) = app.normal_key(Key::Enter);
    assert_eq!(mode, InputMode::Normal);
    match action {
        Action::Run { task_name, commands } => {
            assert_eq!(task_name, "b");
            assert_eq!(commands, strings(&["echo b1 -v", "echo b2 -v"]));
        }
        _ => panic!("expected a run"),
    }
    let mut empty = make_app("");
    assert!(matches!(empty.normal_key(Key::Enter).1, Action::Continue));
}

#[test]
fn quit_keys() {
    let mut app = make_app("a:\n");
    assert!(matches!(app.normal_key(Key::Char('q')).1, Action::Quit));
    assert!(matches!(app.normal_key(Key::Esc).1, Action::Quit));
    assert!(matches!(app.normal_key(Key::Ctrl('c')).1, Action::Quit));
    assert!(matches!(app.normal_key(Key::Char('x')).1, Action::Continue));
}

#[test]
fn finished_run_goes_to_history_and_output() {
    let mut app = make_app("a:\n");
    app.finish_run("a".to_string(), 0, "done".to_string());
    assert_eq!(app.task_history.len(), 1);
    assert_eq!(app.current_output, "done");
    assert!(app.show_output);
    assert_eq!(app.output_scroll, 0);
}

#[test]
fn page_keys_scroll_output_when_shown() {
    let mut app = make_app("a:\nb:\nc:\nd:\ne:\nf:\ng:\n");
    app.normal_key(Key::PageDown);
    assert_eq!(app.selected_index, 5);
    app.normal_key(Key::Char('o'));
    assert!(app.show_output);
    app.normal_key(Key::PageDown);
    assert_eq!(app.output_scroll, 5);
    assert_eq!(app.selected_index, 5);
    app.normal_key(Key::PageUp);
    assert_eq!(app.output_scroll, 0);
    app.normal_key(Key::Home);
    assert_eq!(app.selected_index, 0);
    app.normal_key(Key::End);
    assert_eq!(app.selected_index, 6);
}

#[test]
fn graph_and_help_views() {
    let mut app = make_app("a: b\nb: a\n");
    app.normal_key(Key::Char('g'));
    assert_eq!(
        app.current_output,
        "dependency graph for a:\n\n- a\n  - b\n    - a (cycle)\n"
    );
    app.normal_key(Key::Char('?'));
    assert_eq!(app.current_output, get_help_text());
    assert!(get_help_text().starts_with("LazyMake - Interactive Make/Justfile TUI"));
}

#[test]
fn history_view_lists_newest_first() {
    let mut h = Vec::new();
    for i in 0..12 {
        h.push(TaskExecution {
            task_name: format!("t{}", i),
            timestamp: "ts".to_string(),
            exit_code: i - 1,
            output: String::new(),
        });
    }
    let text = history_view(&h);
    let lines: Vec<&str> = text.split('\n').collect();
    assert_eq!(lines.len(), 10);
    assert_eq!(lines[0], "ts - t11 (exit: 10)");
    assert_eq!(lines[9], "ts - t2 (exit: 1)");
    assert_eq!(history_view(&h[..1].to_vec()), "ts - t0 (exit: -1)");
    let mut app = make_app("a:\n");
    app.normal_key(Key::Char('h'));
    assert!(!app.show_output);
}
