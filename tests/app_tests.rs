use lazymake::app::{App, TaskExecution};
use lazymake::filter::{filter_tasks, select_positive};
use lazymake::parser::{FileType, Parser};
use std::path::PathBuf;

fn make_app(text: &str) -> App {
    let (tasks, ft) = Parser::parse_makefile(text);
    App::new(tasks, ft, PathBuf::from("."))
}

#[test]
fn new_app_shows_every_task() {
    let app = make_app("a:\nb:\nc:\n");
    assert_eq!(app.filtered_tasks, vec![0, 1, 2]);
    assert_eq!(app.selected_index, 0);
    assert!(app.has_tasks());
    assert_eq!(app.filtered_count(), 3);
    assert_eq!(app.file_type, FileType::Makefile);
    assert_eq!(app.selected_task().unwrap().name, "a");
    assert!(!app.show_output);
}

#[test]
fn empty_query_keeps_all_in_order() {
    let (tasks, _) = Parser::parse_makefile("x:\ny:\nz:\nw:\n");
    assert_eq!(filter_tasks(&tasks, &String::new()), vec![0, 1, 2, 3]);
    let app = make_app("");
    assert!(!app.has_tasks());
    assert!(app.filtered_tasks.is_empty());
    assert!(app.selected_task().is_none());
}

#[test]
fn fuzzy_query_keeps_matches_in_list_order() {
    let text = "# compile everything\nbuild:\ntest:\n# remove build output\nclean:\nbundle:\n";
    let (tasks, _) = Parser::parse_makefile(text);
    let r = filter_tasks(&tasks, &"bld".to_string());
    assert_eq!(r, vec![0, 2]);
    let again = filter_tasks(&tasks, &"bld".to_string());
    assert_eq!(r, again);
    assert!(filter_tasks(&tasks, &"qqq".to_string()).is_empty());
}

#[test]
fn filter_is_stable_under_reapplication() {
    let mut app = make_app("build:\ntest:\nbench:\n");
    app.update_filter("b".to_string());
    let first = app.filtered_tasks.clone();
    app.apply_filter();
    assert_eq!(app.filtered_tasks, first);
    assert_eq!(app.selected_index, 0);
}

#[test]
fn positive_scores_select_indices() {
    let names = vec![Some(5), None, Some(0), Some(-2), None];
    let descs = vec![None, Some(1), Some(0), None, None];
    assert_eq!(select_positive(&names, &descs), vec![0, 1]);
}

#[test]
fn page_down_clamps_to_last_entry() {
    let mut app = make_app("a:\nb:\nc:\n");
    app.page_down(5);
    assert_eq!(app.selected_index, 2);
    app.page_down(5);
    assert_eq!(app.selected_index, 2);
    app.page_down(usize::MAX);
    assert_eq!(app.selected_index, 2);
    app.page_up(1);
    assert_eq!(app.selected_index, 1);
    app.page_up(5);
    assert_eq!(app.selected_index, 0);
}

#[test]
fn page_down_on_empty_list_does_nothing() {
    let mut app = make_app("");
    app.page_down(5);
    app.goto_bottom();
    app.move_selection_down();
    assert_eq!(app.selected_index, 0);
}

#[test]
fn arrows_and_jumps() {
    let mut app = make_app("a:\nb:\nc:\nd:\n");
    app.move_selection_up();
    assert_eq!(app.selected_index, 0);
    app.move_selection_down();
    app.move_selection_down();
    assert_eq!(app.selected_index, 2);
    app.goto_bottom();
    assert_eq!(app.selected_index, 3);
    app.move_selection_down();
    assert_eq!(app.selected_index, 3);
    assert_eq!(app.selected_task().unwrap().name, "d");
    app.goto_top();
    assert_eq!(app.selected_index, 0);
}

#[test]
fn output_scroll_saturates() {
    let mut app = make_app("a:\n");
    app.scroll_output_up(5);
    assert_eq!(app.output_scroll, 0);
    app.scroll_output_down(7);
    assert_eq!(app.output_scroll, 7);
    app.scroll_output_up(5);
    assert_eq!(app.output_scroll, 2);
    app.scroll_output_down(u16::MAX);
    assert_eq!(app.output_scroll, u16::MAX);
}

#[test]
fn history_keeps_last_hundred() {
    let mut app = make_app("a:\n");
    for i in 1..=150 {
        app.record_execution(TaskExecution {
            task_name: format!("run{}", i),
            timestamp: String::new(),
            exit_code: 0,
            output: String::new(),
        });
        assert!(app.task_history.len() <= 100);
    }
    assert_eq!(app.task_history.len(), 100);
    for (k, e) in app.task_history.iter().enumerate() {
        assert_eq!(e.task_name, format!("run{}", k + 51));
    }
}

#[test]
fn add_to_history_stamps_the_entry() {
    let mut app = make_app("a:\n");
    app.add_to_history("a".to_string(), 2, "out".to_string());
    assert_eq!(app.task_history.len(), 1);
    assert_eq!(app.task_history[0].task_name, "a");
    assert_eq!(app.task_history[0].exit_code, 2);
    assert_eq!(app.task_history[0].output, "out");
    assert_eq!(app.task_history[0].timestamp.len(), 19);
}

#[test]
fn dependency_tree_marks_cycle() {
    let app = make_app("a: b\nb: a\n");
    assert_eq!(app.dependency_tree("a"), "- a\n  - b\n    - a (cycle)\n");
}

#[test]
fn dependency_tree_self_cycle_and_missing() {
    let app = make_app("a: a ghost\n");
    assert_eq!(app.dependency_tree("a"), "- a\n  - a (cycle)\n");
    assert_eq!(app.dependency_tree("nothing"), "- nothing\n");
}

#[test]
fn dependency_tree_siblings_may_share_a_dependency() {
    let app = make_app("all: b c\nb: d\nc: d\nd:\n");
    assert_eq!(
        app.dependency_tree("all"),
        "- all\n  - b\n    - d\n  - c\n    - d\n"
    );
}

#[test]
fn direct_dependencies_skip_unknown_names() {
    let app = make_app("all: b missing c\nb:\nc:\n");
    let deps = app.get_task_dependencies("all");
    let names: Vec<&str> = deps.iter().map(|t| t.name.as_str()).collect();
    assert_eq!(names, vec!["b", "c"]);
    assert!(app.get_task_dependencies("missing").is_empty());
}
