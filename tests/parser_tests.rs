use lazymake::parser::{FileType, Parser, TaskFile};

fn strings(v: &[&str]) -> Vec<String> {
    v.iter().map(|s| s.to_string()).collect()
}

#[test]
fn makefile_description_and_commands() {
    let text = "# Build it\nbuild: dep1 dep2\n\tcc main.c\n\n\techo done\ntest:\n\t./run\n";
    let (tasks, ft) = Parser::parse_makefile(text);
    assert_eq!(ft, FileType::Makefile);
    assert_eq!(tasks.len(), 2);
    assert_eq!(tasks[0].name, "build");
    assert_eq!(tasks[0].description, "Build it");
    assert_eq!(tasks[0].dependencies, strings(&["dep1", "dep2"]));
    assert_eq!(tasks[0].commands, strings(&["cc main.c", "echo done"]));
    assert_eq!(tasks[1].name, "test");
    assert_eq!(tasks[1].description, "");
    assert_eq!(tasks[1].commands, strings(&["./run"]));
    assert_eq!(tasks[1].file_type, FileType::Makefile);
}

#[test]
fn makefile_description_goes_to_following_header_only() {
    let text = "first:\n\techo 1\n## Second target  \nsecond: first\n";
    let (tasks, _) = Parser::parse_makefile(text);
    assert_eq!(tasks.len(), 2);
    assert_eq!(tasks[0].description, "");
    assert_eq!(tasks[1].description, "Second target");
    assert_eq!(tasks[1].dependencies, strings(&["first"]));
}

#[test]
fn makefile_stray_comment_is_discarded() {
    let text = "# stray\n\n all:\nall:\n";
    let (tasks, _) = Parser::parse_makefile(text);
    assert_eq!(tasks.len(), 1);
    assert_eq!(tasks[0].name, "all");
    assert_eq!(tasks[0].description, "");
}

#[test]
fn makefile_tokens_after_second_colon_are_dependencies() {
    let (tasks, _) = Parser::parse_makefile("a: b:c d\n");
    assert_eq!(tasks[0].name, "a");
    assert_eq!(tasks[0].dependencies, strings(&["b:c", "d"]));
}

#[test]
fn makefile_commands_without_target_are_dropped() {
    let text = "\techo orphan\nall:\n\t\t\n\t\techo nested\n  spaced\n";
    let (tasks, _) = Parser::parse_makefile(text);
    assert_eq!(tasks.len(), 1);
    assert_eq!(tasks[0].commands, strings(&["echo nested"]));
}

#[test]
fn makefile_crlf_lines() {
    let (tasks, _) = Parser::parse_makefile("# Doc\r\nbuild:\r\n\tmake all\r\n");
    assert_eq!(tasks[0].description, "Doc");
    assert_eq!(tasks[0].commands, strings(&["make all"]));
}

#[test]
fn empty_text_has_no_tasks() {
    assert!(Parser::parse_makefile("").0.is_empty());
    assert!(Parser::parse_justfile("").0.is_empty());
}

#[test]
fn justfile_documented_and_undocumented_agree() {
    let documented = "# Run the tests\ntest: build lint\n    cargo test\n   \n    echo ok\nother:\n";
    let undocumented = "test: build lint\n    cargo test\n   \n    echo ok\nother:\n";
    let (a, ft) = Parser::parse_justfile(documented);
    let (b, _) = Parser::parse_justfile(undocumented);
    assert_eq!(ft, FileType::Justfile);
    assert_eq!(a.len(), 2);
    assert_eq!(b.len(), 2);
    assert_eq!(a[0].name, b[0].name);
    assert_eq!(a[0].dependencies, b[0].dependencies);
    assert_eq!(a[0].commands, b[0].commands);
    assert_eq!(a[0].name, "test");
    assert_eq!(a[0].dependencies, strings(&["build", "lint"]));
    assert_eq!(a[0].commands, strings(&["cargo test", "echo ok"]));
    assert_eq!(a[0].description, "Run the tests");
    assert_eq!(b[0].description, "");
    assert_eq!(a[1].name, "other");
}

#[test]
fn justfile_body_ends_at_unindented_line() {
    let text = "build:\n\tcargo build\nset shell := [\"bash\"]\n_hidden:\n  echo hi\n";
    let (tasks, _) = Parser::parse_justfile(text);
    let names: Vec<&str> = tasks.iter().map(|t| t.name.as_str()).collect();
    assert_eq!(names, vec!["build", "set shell", "_hidden"]);
    assert_eq!(tasks[0].commands, strings(&["cargo build"]));
    assert_eq!(tasks[2].commands, strings(&["echo hi"]));
}

#[test]
fn justfile_blank_line_ends_body() {
    let (tasks, _) = Parser::parse_justfile("a:\n  one\n\n  two\n");
    assert_eq!(tasks.len(), 1);
    assert_eq!(tasks[0].commands, strings(&["one"]));
}

#[test]
fn justfile_comment_before_non_recipe_is_ignored() {
    let text = "# just a note\n1bad: x\nok:\n";
    let (tasks, _) = Parser::parse_justfile(text);
    assert_eq!(tasks.len(), 1);
    assert_eq!(tasks[0].name, "ok");
    assert_eq!(tasks[0].description, "");
}

#[test]
fn parser_uses_its_dialect() {
    let p = Parser::new(FileType::Justfile);
    let (tasks, ft) = p.parse("a:\n  echo a\n");
    assert_eq!(ft, FileType::Justfile);
    assert_eq!(tasks[0].commands, strings(&["echo a"]));
    let m = Parser::new(FileType::Makefile);
    let (tasks, ft) = m.parse("a:\n  echo a\n");
    assert_eq!(ft, FileType::Makefile);
    assert!(tasks[0].commands.is_empty());
}

#[test]
fn justfile_preferred_over_makefile() {
    assert_eq!(Parser::choose_task_file(true, true, true), Some(TaskFile::LowerJustfile));
    assert_eq!(Parser::choose_task_file(false, true, true), Some(TaskFile::UpperJustfile));
    assert_eq!(Parser::choose_task_file(false, false, true), Some(TaskFile::Makefile));
    assert_eq!(Parser::choose_task_file(false, false, false), None);
    assert_eq!(TaskFile::UpperJustfile.file_name(), "Justfile");
    assert_eq!(TaskFile::Makefile.file_type(), FileType::Makefile);
    assert_eq!(TaskFile::LowerJustfile.file_type(), FileType::Justfile);
}
