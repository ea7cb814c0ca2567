//! Key handling in the three input modes, and the text views that keys
//! open (history, dependency graph, help).
use vstd::prelude::*;
use crate::app::{App, TaskExecution, bounded_push};
use crate::filter::fuzzy_filter;
use crate::deps::dependency_tree_text;
use crate::executor::decimal;
use crate::executor::decimal_string;
use crate::text::{chars_of, string_of, trim, trim_bounds};

verus! {

/// Longest filter text, in characters.
pub const FILTER_LIMIT: usize = 50;

/// Longest parameter text, in characters.
pub const PARAM_LIMIT: usize = 100;

/// Rows moved by the page keys.
pub const PAGE_STEP: usize = 5;

/// What keys do: move and run, edit the filter, or edit the parameters.
#[derive(Debug, Clone, Copy, PartialEq, Eq, Structural)]
pub enum InputMode {
    Normal,
    Filter,
    Params,
}

/// A key press, as far as the modes tell keys apart.
#[derive(Debug, Clone, Copy, PartialEq, Eq, Structural)]
pub enum Key {
    Char(char),
    Ctrl(char),
    Up,
    Down,
    PageUp,
    PageDown,
    Home,
    End,
    Enter,
    Esc,
    Backspace,
    Other,
}

/// What the loop does after a key.
pub enum Action {
    Continue,
    Quit,
    /// Run these commands of the named task, then report with `finish_run`.
    Run { task_name: String, commands: Vec<String> },
}

/// The commands of a task as they run: unchanged when the parameter text is
/// blank, else each followed by a space and the trimmed parameter text.
pub open spec fn with_params(commands: Seq<Seq<char>>, params: Seq<char>) -> Seq<Seq<char>> {
    if trim(params).len() == 0 {
        commands
    } else {
        commands.map_values(|c: Seq<char>| c + seq![' '] + trim(params))
    }
}

pub open spec fn history_line(e: TaskExecution) -> Seq<char> {
    e.timestamp@ + " - "@ + e.task_name@ + " (exit: "@ + decimal(e.exit_code as int) + ")"@
}

/// The lines joined with a newline between each two.
pub open spec fn join_lines(ls: Seq<Seq<char>>) -> Seq<char>
    decreases ls.len(),
{
    if ls.len() == 0 {
        seq![]
    } else if ls.len() == 1 {
        ls[0]
    } else {
        join_lines(ls.drop_last()) + "\n"@ + ls.last()
    }
}

/// The ten most recent runs, newest first, one per line.
pub open spec fn history_text(h: Seq<TaskExecution>) -> Seq<char> {
    let n = if h.len() < 10 {
        h.len() as int
    } else {
        10
    };
    join_lines(Seq::new(n as nat, |i: int| history_line(h[h.len() - 1 - i])))
}

pub open spec fn graph_text(tasks: Seq<crate::parser::TaskView>, name: Seq<char>) -> Seq<char> {
    "dependency graph for "@ + name + ":\n\n"@ + dependency_tree_text(tasks, name)
}

/// The commands of `commands` with the parameter text applied, as
/// `with_params` describes.
pub fn commands_with_params(commands: &Vec<String>, params: &String) -> (r: Vec<String>)
    ensures
        r.deep_view() == with_params(commands.deep_view(), params@),
{
    let p = chars_of(params.as_str());
    let (a, b) = trim_bounds(&p, 0, p.len());
    assert(p@.subrange(0, p@.len() as int) =~= p@);
    let mut out: Vec<String> = Vec::new();
    let ghost t = trim(params@);
    let mut suffix: Vec<char> = Vec::new();
    suffix.push(' ');
    let mut k = a;
    while k < b
        invariant
            a <= k <= b <= p.len(),
            suffix@ == seq![' '] + p@.subrange(a as int, k as int),
        decreases b - k,
    {
        suffix.push(p[k]);
        assert(suffix@ =~= seq![' '] + p@.subrange(a as int, k + 1));
        k += 1;
    }
    let blank = a == b;
    let mut i: usize = 0;
    while i < commands.len()
        invariant
            i <= commands.len(),
            t == trim(params@),
            t == p@.subrange(a as int, b as int),
            blank == (t.len() == 0),
            suffix@ == seq![' '] + t,
            out.len() == i,
            forall|j: int|
                0 <= j < i ==> #[trigger] out@[j]@ == with_params(
                    commands.deep_view(),
                    params@,
                )[j],
        decreases commands.len() - i,
    {
        let c = &commands[i];
        if blank {
            out.push(c.clone());
        } else {
            let mut v = chars_of(c.as_str());
            let mut m: usize = 0;
            let ghost base = v@;
            while m < suffix.len()
                invariant
                    m <= suffix.len(),
                    v@ == base + suffix@.take(m as int),
                decreases suffix.len() - m,
            {
                v.push(suffix[m]);
                assert(suffix@.take(m + 1) =~= suffix@.take(m as int).push(suffix@[m as int]));
                m += 1;
            }
            assert(suffix@.take(suffix.len() as int) =~= suffix@);
            assert(v@ =~= c@ + seq![' '] + t);
            out.push(string_of(v.as_slice()));
        }
        i += 1;
    }
    assert(out.deep_view() =~= with_params(commands.deep_view(), params@));
    out
}

/// The history view: the ten most recent runs, newest first.
pub fn history_view(history: &Vec<TaskExecution>) -> (r: String)
    ensures
        r@ == history_text(history@),
{
    let n: usize = if history.len() < 10 {
        history.len()
    } else {
        10
    };
    let ghost ls = Seq::new(n as nat, |i: int| history_line(history@[history.len() - 1 - i]));
    let mut out = String::new();
    let mut i: usize = 0;
    while i < n
        invariant
            i <= n <= history.len(),
            n <= 10,
            ls == Seq::new(n as nat, |i: int| history_line(history@[history.len() - 1 - i])),
            out@ == join_lines(ls.take(i as int)),
        decreases n - i,
    {
        let e = &history[history.len() - 1 - i];
        let ghost before = out@;
        if i > 0 {
            out.append("\n");
        }
        out.append(e.timestamp.as_str());
        out.append(" - ");
        out.append(e.task_name.as_str());
        out.append(" (exit: ");
        let code = decimal_string(e.exit_code);
        out.append(code.as_str());
        out.append(")");
        proof {
            assert(ls.take(i + 1).drop_last() =~= ls.take(i as int));
            assert(ls.take(i + 1).last() == history_line(*e));
            if i == 0 {
                assert(out@ =~= join_lines(ls.take(1)));
            } else {
                assert(out@ =~= join_lines(ls.take(i + 1)));
            }
        }
        i += 1;
    }
    assert(ls.take(n as int) =~= ls);
    out
}

/// The text that the help key shows.
pub fn get_help_text() -> (r: String)
    ensures
        r@ == help_text(),
{
    String::from_str(
        "LazyMake - Interactive Make/Justfile TUI\n\nKEYBINDINGS:\n↑/↓       Navigate tasks\n/         Start filtering (fuzzy search)\np         Edit task parameters\nEsc       Cancel filter/param input\nEnter     Execute selected task\ng         Show dependency graph for task\nPageUp    Page up (task list or output)\nPageDown  Page down (task list or output)\nHome      Jump to first task\nEnd       Jump to last task\no         Toggle output panel\nh         Show task history\n?         Show this help\nq/Esc     Quit\n\nFEATURES:\n• Browse all tasks with descriptions\n• Fuzzy search filtering\n• View task dependencies and graph\n• Execute tasks with live output\n• Task execution history\n• Interactive parameter input\n• Support for Makefile and Justfile",
    )
}

pub open spec fn help_text() -> Seq<char> {
    "LazyMake - Interactive Make/Justfile TUI\n\nKEYBINDINGS:\n↑/↓       Navigate tasks\n/         Start filtering (fuzzy search)\np         Edit task parameters\nEsc       Cancel filter/param input\nEnter     Execute selected task\ng         Show dependency graph for task\nPageUp    Page up (task list or output)\nPageDown  Page down (task list or output)\nHome      Jump to first task\nEnd       Jump to last task\no         Toggle output panel\nh         Show task history\n?         Show this help\nq/Esc     Quit\n\nFEATURES:\n• Browse all tasks with descriptions\n• Fuzzy search filtering\n• View task dependencies and graph\n• Execute tasks with live output\n• Task execution history\n• Interactive parameter input\n• Support for Makefile and Justfile"@
}

/// `s` with `c` appended.
fn push_char(s: &String, c: char) -> (r: String)
    ensures
        r@ == s@.push(c),
{
    let mut v = chars_of(s.as_str());
    v.push(c);
    string_of(v.as_slice())
}

/// `s` without its last character (unchanged when empty).
fn pop_char(s: &String) -> (r: String)
    ensures
        r@ == if s@.len() > 0 {
            s@.drop_last()
        } else {
            s@
        },
{
    let mut v = chars_of(s.as_str());
    if v.len() > 0 {
        v.pop();
    }
    string_of(v.as_slice())
}

fn char_count(s: &String) -> (r: usize)
    ensures
        r == s@.len(),
{
    s.as_str().unicode_len()
}

/// `b` is `a` with the filter set to `f`, filtered again, and the first
/// entry selected.
pub open spec fn refiltered(a: App, b: App, f: Seq<char>) -> bool {
    &&& b == (App { filter: b.filter, filtered_tasks: b.filtered_tasks, selected_index: 0, ..a })
    &&& b.filter@ == f
    &&& b.filtered_tasks@ == fuzzy_filter(a.task_views(), f)
}

/// `b` is `a` with the parameter text set to `p`.
pub open spec fn params_set(a: App, b: App, p: Seq<char>) -> bool {
    b == (App { param_input: b.param_input, ..a }) && b.param_input@ == p
}

/// `b` is `a` showing `text` in the output panel, scrolled to the top.
pub open spec fn shows(a: App, b: App, text: Seq<char>) -> bool {
    b == (App { current_output: b.current_output, output_scroll: 0, show_output: true, ..a })
        && b.current_output@ == text
}

pub open spec fn selects(a: App, b: App, i: usize) -> bool {
    b == (App { selected_index: i, ..a })
}

/// What a key does in filter mode: characters (up to the limit) and
/// Backspace edit the filter, filter again and select the first entry; Esc
/// clears the filter and Enter keeps it, both returning to normal mode.
pub open spec fn filter_key_effect(a: App, b: App, key: Key, mode: InputMode) -> bool {
    match key {
        Key::Esc => mode == InputMode::Normal && refiltered(a, b, seq![]),
        Key::Enter => mode == InputMode::Normal && b == a,
        Key::Char(c) => mode == InputMode::Filter && if a.filter@.len() < FILTER_LIMIT {
            refiltered(a, b, a.filter@.push(c))
        } else {
            b == a
        },
        Key::Backspace => mode == InputMode::Filter && refiltered(
            a,
            b,
            if a.filter@.len() > 0 {
                a.filter@.drop_last()
            } else {
                a.filter@
            },
        ),
        _ => mode == InputMode::Filter && b == a,
    }
}

/// What a key does in parameter mode: characters (up to the limit) and
/// Backspace edit the parameter text; Esc clears it and Enter keeps it, both
/// returning to normal mode.
pub open spec fn param_key_effect(a: App, b: App, key: Key, mode: InputMode) -> bool {
    match key {
        Key::Esc => mode == InputMode::Normal && params_set(a, b, seq![]),
        Key::Enter => mode == InputMode::Normal && b == a,
        Key::Char(c) => mode == InputMode::Params && if a.param_input@.len() < PARAM_LIMIT {
            params_set(a, b, a.param_input@.push(c))
        } else {
            b == a
        },
        Key::Backspace => mode == InputMode::Params && params_set(
            a,
            b,
            if a.param_input@.len() > 0 {
                a.param_input@.drop_last()
            } else {
                a.param_input@
            },
        ),
        _ => mode == InputMode::Params && b == a,
    }
}

/// What a key does in normal mode.
pub open spec fn normal_key_effect(
    a: App,
    b: App,
    key: Key,
    mode: InputMode,
    action: Action,
) -> bool {
    let keeps_mode = mode == InputMode::Normal && action is Continue;
    match key {
        Key::Char('q') | Key::Esc | Key::Ctrl('c') => mode == InputMode::Normal && action is Quit
            && b == a,
        Key::Up => keeps_mode && selects(a, b, a.up_index()),
        Key::Down => keeps_mode && selects(a, b, a.down_index()),
        Key::PageUp => keeps_mode && if a.show_output {
            b == (App { output_scroll: a.scrolled_up(PAGE_STEP as u16), ..a })
        } else {
            selects(a, b, a.page_up_index(PAGE_STEP))
        },
        Key::PageDown => keeps_mode && if a.show_output {
            b == (App { output_scroll: a.scrolled_down(PAGE_STEP as u16), ..a })
        } else {
            selects(a, b, a.page_down_index(PAGE_STEP))
        },
        Key::Home => keeps_mode && selects(a, b, a.top_index()),
        Key::End => keeps_mode && selects(a, b, a.bottom_index()),
        Key::Char('/') => mode == InputMode::Filter && action is Continue && refiltered(
            a,
            b,
            seq![],
        ),
        Key::Char('p') => mode == InputMode::Params && action is Continue && b == a,
        Key::Enter => mode == InputMode::Normal && b == a && match a.selected_task_index() {
            Some(i) => match action {
                Action::Run { task_name, commands } => task_name@ == a.tasks@[i].name@
                    && commands.deep_view() == with_params(
                    a.tasks@[i].commands.deep_view(),
                    a.param_input@,
                ),
                _ => false,
            },
            None => action is Continue,
        },
        Key::Char('o') => keeps_mode && b == (App { show_output: !a.show_output, ..a }),
        Key::Char('h') => keeps_mode && if a.task_history.len() > 0 {
            shows(a, b, history_text(a.task_history@))
        } else {
            b == a
        },
        Key::Char('g') => keeps_mode && match a.selected_task_index() {
            Some(i) => shows(a, b, graph_text(a.task_views(), a.tasks@[i].name@)),
            None => b == a,
        },
        Key::Char('?') => keeps_mode && shows(a, b, help_text()),
        _ => keeps_mode && b == a,
    }
}

impl App {
    /// The index of the selected task, if the selection names one.
    pub open spec fn selected_task_index(&self) -> Option<int> {
        let sel = self.selected_index as int;
        if sel < self.filtered_tasks.len() && self.filtered_tasks@[sel] < self.tasks.len() {
            Some(self.filtered_tasks@[sel] as int)
        } else {
            None
        }
    }

    /// Shows `text` in the output panel, scrolled to the top.
    pub fn show_text(&mut self, text: String)
        ensures
            shows(*old(self), *final(self), text@),
            final(self).current_output == text,
    {
        self.current_output = text;
        self.output_scroll = 0;
        self.show_output = true;
    }

    /// Takes the result of a run: a new history entry, shown in the output
    /// panel.
    pub fn finish_run(&mut self, task_name: String, exit_code: i32, output: String)
        requires
            old(self).wf(),
        ensures
            final(self).wf(),
            final(self).task_history@ == bounded_push(
                old(self).task_history@,
                TaskExecution {
                    task_name,
                    timestamp: final(self).task_history@.last().timestamp,
                    exit_code,
                    output,
                },
            ),
            *final(self) == (App {
                task_history: final(self).task_history,
                current_output: output,
                output_scroll: 0,
                show_output: true,
                ..*old(self)
            }),
    {
        let shown = output.clone();
        self.add_to_history(task_name, exit_code, output);
        self.show_text(shown);
    }

    /// A key in filter mode, as `filter_key_effect` describes.
    pub fn filter_key(&mut self, key: Key) -> (mode: InputMode)
        requires
            old(self).wf(),
        ensures
            final(self).wf(),
            filter_key_effect(*old(self), *final(self), key, mode),
    {
        match key {
            Key::Esc => {
                self.update_filter(String::new());
                InputMode::Normal
            },
            Key::Enter => InputMode::Normal,
            Key::Char(c) => {
                if char_count(&self.filter) < FILTER_LIMIT {
                    let f = push_char(&self.filter, c);
                    self.update_filter(f);
                }
                InputMode::Filter
            },
            Key::Backspace => {
                let f = pop_char(&self.filter);
                self.update_filter(f);
                InputMode::Filter
            },
            _ => InputMode::Filter,
        }
    }

    /// A key in parameter mode, as `param_key_effect` describes.
    pub fn param_key(&mut self, key: Key) -> (mode: InputMode)
        requires
            old(self).wf(),
        ensures
            final(self).wf(),
            param_key_effect(*old(self), *final(self), key, mode),
    {
        match key {
            Key::Esc => {
                self.param_input = String::new();
                InputMode::Normal
            },
            Key::Enter => InputMode::Normal,
            Key::Char(c) => {
                if char_count(&self.param_input) < PARAM_LIMIT {
                    self.param_input = push_char(&self.param_input, c);
                }
                InputMode::Params
            },
            Key::Backspace => {
                self.param_input = pop_char(&self.param_input);
                InputMode::Params
            },
            _ => InputMode::Params,
        }
    }

    /// The run that Enter asks for: the selected task's name and its commands
    /// with the parameter text applied.
    pub fn run_request(&self) -> (r: Option<(String, Vec<String>)>)
        ensures
            r is Some <==> self.selected_task_index() is Some,
            r matches Some(p) ==> p.0@ == self.tasks@[self.selected_task_index()->0].name@
                && p.1.deep_view() == with_params(
                self.tasks@[self.selected_task_index()->0].commands.deep_view(),
                self.param_input@,
            ),
    {
        match self.selected_task() {
            Some(task) => {
                let commands = commands_with_params(&task.commands, &self.param_input);
                Some((task.name.clone(), commands))
            },
            None => None,
        }
    }

    /// A key in normal mode, as `normal_key_effect` describes.
    pub fn normal_key(&mut self, key: Key) -> (r: (InputMode, Action))
        requires
            old(self).wf(),
        ensures
            final(self).wf(),
            normal_key_effect(*old(self), *final(self), key, r.0, r.1),
    {
        match key {
            Key::Char('q') | Key::Esc | Key::Ctrl('c') => (InputMode::Normal, Action::Quit),
            Key::Up => {
                self.move_selection_up();
                (InputMode::Normal, Action::Continue)
            },
            Key::Down => {
                self.move_selection_down();
                (InputMode::Normal, Action::Continue)
            },
            Key::PageUp => {
                if self.show_output {
                    self.scroll_output_up(PAGE_STEP as u16);
                } else {
                    self.page_up(PAGE_STEP);
                }
                (InputMode::Normal, Action::Continue)
            },
            Key::PageDown => {
                if self.show_output {
                    self.scroll_output_down(PAGE_STEP as u16);
                } else {
                    self.page_down(PAGE_STEP);
                }
                (InputMode::Normal, Action::Continue)
            },
            Key::Home => {
                self.goto_top();
                (InputMode::Normal, Action::Continue)
            },
            Key::End => {
                self.goto_bottom();
                (InputMode::Normal, Action::Continue)
            },
            Key::Char('/') => {
                self.update_filter(String::new());
                (InputMode::Filter, Action::Continue)
            },
            Key::Char('p') => (InputMode::Params, Action::Continue),
            Key::Enter => match self.run_request() {
                Some((task_name, commands)) => (
                    InputMode::Normal,
                    Action::Run { task_name, commands },
                ),
                None => (InputMode::Normal, Action::Continue),
            },
            Key::Char('o') => {
                self.show_output = !self.show_output;
                (InputMode::Normal, Action::Continue)
            },
            Key::Char('h') => {
                if self.task_history.len() > 0 {
                    let text = history_view(&self.task_history);
                    self.show_text(text);
                }
                (InputMode::Normal, Action::Continue)
            },
            Key::Char('g') => {
                match self.selected_task() {
                    Some(task) => {
                        let tree = self.dependency_tree(task.name.as_str());
                        let mut text = String::from_str("dependency graph for ");
                        text.append(task.name.as_str());
                        text.append(":\n\n");
                        text.append(tree.as_str());
                        self.show_text(text);
                    },
                    None => {},
                }
                (InputMode::Normal, Action::Continue)
            },
            Key::Char('?') => {
                let text = get_help_text();
                self.show_text(text);
                (InputMode::Normal, Action::Continue)
            },
            _ => (InputMode::Normal, Action::Continue),
        }
    }

    /// Hands a key to the handler of the current mode.
    pub fn handle_key(&mut self, mode: InputMode, key: Key) -> (r: (InputMode, Action))
        requires
            old(self).wf(),
        ensures
            final(self).wf(),
            mode == InputMode::Filter ==> r.1 is Continue && filter_key_effect(
                *old(self),
                *final(self),
                key,
                r.0,
            ),
            mode == InputMode::Params ==> r.1 is Continue && param_key_effect(
                *old(self),
                *final(self),
                key,
                r.0,
            ),
            mode == InputMode::Normal ==> normal_key_effect(*old(self), *final(self), key, r.0, r.1),
    {
        match mode {
            InputMode::Filter => (self.filter_key(key), Action::Continue),
            InputMode::Params => (self.param_key(key), Action::Continue),
            InputMode::Normal => self.normal_key(key),
        }
    }
}

} // verus!
