//! The application state: tasks, filter and selection, history and the
//! output view.
use vstd::prelude::*;
use std::path::PathBuf;
use crate::parser::{FileType, Task, TaskView, task_views};
use crate::filter::{filter_tasks, fuzzy_filter, is_index_subsequence};
use crate::deps::{
    child_names, direct_dependencies, forest, lemma_descent, lemma_forest_concat,
    lemma_task_index_bounds, node_line, resolve, spaces, task_index, unvisited,
    dependency_tree_text,
};
use crate::text::string_of;

verus! {

#[verifier::external_type_specification]
#[verifier::external_body]
pub struct ExPathBuf(PathBuf);

/// How many runs the history keeps.
pub const HISTORY_CAPACITY: usize = 100;

/// One finished run of a task.
#[derive(Debug, Clone)]
pub struct TaskExecution {
    pub task_name: String,
    pub timestamp: String,
    pub exit_code: i32,
    pub output: String,
}

/// The history after one more run: appended, and the oldest entry dropped
/// when that makes it longer than the capacity.
pub open spec fn bounded_push(h: Seq<TaskExecution>, e: TaskExecution) -> Seq<TaskExecution> {
    let p = h.push(e);
    if p.len() > HISTORY_CAPACITY {
        p.drop_first()
    } else {
        p
    }
}

pub open spec fn string_views(v: Seq<String>) -> Seq<Seq<char>> {
    v.map_values(|s: String| s@)
}

/// Relies on chrono's `Local::now` and `format`: the local time of the call,
/// as `YYYY-MM-DD HH:MM:SS`. Nothing is promised of the value.
#[verifier::external_body]
fn local_timestamp() -> (r: String) {
    chrono::Local::now().format("%Y-%m-%d %H:%M:%S").to_string()
}

/// The state that the interaction loop owns.
pub struct App {
    pub tasks: Vec<Task>,
    pub file_type: FileType,
    pub selected_index: usize,
    pub filter: String,
    pub param_input: String,
    pub filtered_tasks: Vec<usize>,
    pub task_history: Vec<TaskExecution>,
    pub current_output: String,
    pub show_output: bool,
    pub output_scroll: u16,
    pub working_dir: PathBuf,
}

impl App {
    pub open spec fn task_views(&self) -> Seq<TaskView> {
        task_views(self.tasks@)
    }

    /// The filtered indices are an order-preserving subsequence of the task
    /// indices, the selection lies within them, and the history is bounded.
    pub open spec fn wf(&self) -> bool {
        &&& is_index_subsequence(self.filtered_tasks@, self.tasks.len() as int)
        &&& self.filtered_tasks.len() > 0 ==> self.selected_index < self.filtered_tasks.len()
        &&& self.filtered_tasks.len() == 0 ==> self.selected_index == 0
        &&& self.task_history.len() <= HISTORY_CAPACITY
    }

    pub open spec fn up_index(&self) -> usize {
        if self.selected_index > 0 {
            (self.selected_index - 1) as usize
        } else {
            self.selected_index
        }
    }

    pub open spec fn down_index(&self) -> usize {
        if self.selected_index + 1 < self.filtered_tasks.len() {
            (self.selected_index + 1) as usize
        } else {
            self.selected_index
        }
    }

    pub open spec fn page_up_index(&self, lines: usize) -> usize {
        if self.selected_index > lines {
            (self.selected_index - lines) as usize
        } else {
            0
        }
    }

    pub open spec fn page_down_index(&self, lines: usize) -> usize {
        if self.filtered_tasks.len() == 0 {
            self.selected_index
        } else if self.selected_index + lines < self.filtered_tasks.len() {
            (self.selected_index + lines) as usize
        } else {
            (self.filtered_tasks.len() - 1) as usize
        }
    }

    pub open spec fn top_index(&self) -> usize {
        if self.filtered_tasks.len() > 0 {
            0
        } else {
            self.selected_index
        }
    }

    pub open spec fn bottom_index(&self) -> usize {
        if self.filtered_tasks.len() > 0 {
            (self.filtered_tasks.len() - 1) as usize
        } else {
            self.selected_index
        }
    }

    pub open spec fn scrolled_up(&self, lines: u16) -> u16 {
        if self.output_scroll > lines {
            (self.output_scroll - lines) as u16
        } else {
            0
        }
    }

    pub open spec fn scrolled_down(&self, lines: u16) -> u16 {
        if self.output_scroll + lines <= u16::MAX {
            (self.output_scroll + lines) as u16
        } else {
            u16::MAX
        }
    }

    /// A fresh state over parsed tasks: no filter, every task shown, the
    /// first selected, no history and no output.
    pub fn new(tasks: Vec<Task>, file_type: FileType, working_dir: PathBuf) -> (r: App)
        ensures
            r.wf(),
            r.tasks == tasks,
            r.file_type == file_type,
            r.working_dir == working_dir,
            r.selected_index == 0,
            r.filter@.len() == 0,
            r.param_input@.len() == 0,
            r.filtered_tasks@ == fuzzy_filter(task_views(tasks@), seq![]),
            r.task_history@.len() == 0,
            r.current_output@.len() == 0,
            !r.show_output,
            r.output_scroll == 0,
    {
        let filter = String::new();
        let filtered_tasks = filter_tasks(&tasks, &filter);
        App {
            tasks,
            file_type,
            selected_index: 0,
            filter,
            param_input: String::new(),
            filtered_tasks,
            task_history: Vec::new(),
            current_output: String::new(),
            show_output: false,
            output_scroll: 0,
            working_dir,
        }
    }

    /// Sets the filter text, filters again and selects the first match.
    pub fn update_filter(&mut self, filter: String)
        requires
            old(self).wf(),
        ensures
            final(self).wf(),
            *final(self) == (App {
                filter,
                filtered_tasks: final(self).filtered_tasks,
                selected_index: 0,
                ..*old(self)
            }),
            final(self).filtered_tasks@ == fuzzy_filter(old(self).task_views(), filter@),
    {
        self.filter = filter;
        self.apply_filter();
        self.selected_index = 0;
    }

    /// Recomputes the filtered indices from the tasks and the filter text.
    pub fn apply_filter(&mut self)
        ensures
            *final(self) == (App { filtered_tasks: final(self).filtered_tasks, ..*old(self) }),
            final(self).filtered_tasks@ == fuzzy_filter(old(self).task_views(), old(self).filter@),
            is_index_subsequence(final(self).filtered_tasks@, old(self).tasks.len() as int),
    {
        self.filtered_tasks = filter_tasks(&self.tasks, &self.filter);
    }

    /// The task under the cursor, if any.
    pub fn selected_task(&self) -> (r: Option<&Task>)
        ensures
            r is Some <==> (self.selected_index < self.filtered_tasks.len()
                && self.filtered_tasks@[self.selected_index as int] < self.tasks.len()),
            r is Some ==> r->0 == self.tasks@[self.filtered_tasks@[self.selected_index as int] as int],
    {
        if self.selected_index < self.filtered_tasks.len() {
            let idx = self.filtered_tasks[self.selected_index];
            if idx < self.tasks.len() {
                return Some(&self.tasks[idx]);
            }
        }
        None
    }

    pub fn move_selection_up(&mut self)
        requires
            old(self).wf(),
        ensures
            final(self).wf(),
            *final(self) == (App { selected_index: old(self).up_index(), ..*old(self) }),
    {
        if self.selected_index > 0 {
            self.selected_index -= 1;
        }
    }

    pub fn move_selection_down(&mut self)
        requires
            old(self).wf(),
        ensures
            final(self).wf(),
            *final(self) == (App { selected_index: old(self).down_index(), ..*old(self) }),
    {
        let len = self.filtered_tasks.len();
        if len > 0 && self.selected_index < len - 1 {
            self.selected_index += 1;
        }
    }

    /// Moves the selection up by `lines`, stopping at the first entry.
    pub fn page_up(&mut self, lines: usize)
        requires
            old(self).wf(),
        ensures
            final(self).wf(),
            *final(self) == (App { selected_index: old(self).page_up_index(lines), ..*old(self) }),
    {
        if self.selected_index > lines {
            self.selected_index -= lines;
        } else {
            self.selected_index = 0;
        }
    }

    /// Moves the selection down by `lines`, stopping at the last entry.
    pub fn page_down(&mut self, lines: usize)
        requires
            old(self).wf(),
        ensures
            final(self).wf(),
            *final(self) == (App { selected_index: old(self).page_down_index(lines), ..*old(self) }),
    {
        let len = self.filtered_tasks.len();
        if len == 0 {
            return;
        }
        let max_index = len - 1;
        if lines <= max_index - self.selected_index {
            self.selected_index = self.selected_index + lines;
        } else {
            self.selected_index = max_index;
        }
    }

    pub fn goto_top(&mut self)
        requires
            old(self).wf(),
        ensures
            final(self).wf(),
            *final(self) == (App { selected_index: old(self).top_index(), ..*old(self) }),
    {
        if self.filtered_tasks.len() > 0 {
            self.selected_index = 0;
        }
    }

    pub fn goto_bottom(&mut self)
        requires
            old(self).wf(),
        ensures
            final(self).wf(),
            *final(self) == (App { selected_index: old(self).bottom_index(), ..*old(self) }),
    {
        let len = self.filtered_tasks.len();
        if len > 0 {
            self.selected_index = len - 1;
        }
    }

    /// Appends a run to the history, dropping the oldest entry beyond the
    /// capacity.
    pub fn record_execution(&mut self, entry: TaskExecution)
        ensures
            *final(self) == (App { task_history: final(self).task_history, ..*old(self) }),
            final(self).task_history@ == bounded_push(old(self).task_history@, entry),
            old(self).task_history.len() <= HISTORY_CAPACITY ==> final(self).task_history.len()
                <= HISTORY_CAPACITY,
    {
        self.task_history.push(entry);
        if self.task_history.len() > HISTORY_CAPACITY {
            let ghost p = self.task_history@;
            self.task_history.remove(0);
            assert(self.task_history@ =~= p.drop_first());
        }
    }

    /// Records a run of `task_name`, stamped with the local time.
    pub fn add_to_history(&mut self, task_name: String, exit_code: i32, output: String)
        ensures
            *final(self) == (App { task_history: final(self).task_history, ..*old(self) }),
            final(self).task_history@ == bounded_push(
                old(self).task_history@,
                TaskExecution {
                    task_name,
                    timestamp: final(self).task_history@.last().timestamp,
                    exit_code,
                    output,
                },
            ),
            old(self).task_history.len() <= HISTORY_CAPACITY ==> final(self).task_history.len()
                <= HISTORY_CAPACITY,
    {
        let timestamp = local_timestamp();
        self.record_execution(TaskExecution { task_name, timestamp, exit_code, output });
    }

    pub fn scroll_output_up(&mut self, lines: u16)
        ensures
            *final(self) == (App { output_scroll: old(self).scrolled_up(lines), ..*old(self) }),
    {
        if self.output_scroll > lines {
            self.output_scroll -= lines;
        } else {
            self.output_scroll = 0;
        }
    }

    pub fn scroll_output_down(&mut self, lines: u16)
        ensures
            *final(self) == (App { output_scroll: old(self).scrolled_down(lines), ..*old(self) }),
    {
        if lines <= u16::MAX - self.output_scroll {
            self.output_scroll += lines;
        } else {
            self.output_scroll = u16::MAX;
        }
    }

    pub fn has_tasks(&self) -> (r: bool)
        ensures
            r == (self.tasks.len() > 0),
    {
        self.tasks.len() > 0
    }

    pub fn filtered_count(&self) -> (r: usize)
        ensures
            r == self.filtered_tasks.len(),
    {
        self.filtered_tasks.len()
    }

    /// Index of the first task named `name`, or the number of tasks.
    fn find_task(&self, name: &String) -> (r: usize)
        ensures
            r == task_index(self.task_views(), name@),
    {
        let ghost tv = self.task_views();
        let mut i: usize = 0;
        assert(tv.skip(0) =~= tv);
        while i < self.tasks.len() && self.tasks[i].name != *name
            invariant
                i <= self.tasks.len(),
                tv == self.task_views(),
                task_index(tv, name@) == i + task_index(tv.skip(i as int), name@),
            decreases self.tasks.len() - i,
        {
            assert(tv.skip(i as int).drop_first() =~= tv.skip(i + 1));
            i += 1;
        }
        i
    }

    /// Indices of the known direct dependencies of the task named `name`.
    fn dependency_indices(&self, name: &String) -> (r: Vec<usize>)
        ensures
            r@.map_values(|k: usize| k as int) == direct_dependencies(self.task_views(), name@),
            forall|i: int| 0 <= i < r.len() ==> r@[i] < self.tasks.len(),
    {
        let ghost tv = self.task_views();
        let mut out: Vec<usize> = Vec::new();
        let k = self.find_task(name);
        if k >= self.tasks.len() {
            assert(out@.map_values(|k: usize| k as int) =~= seq![]);
            return out;
        }
        let deps = &self.tasks[k].dependencies;
        let ghost dv = deps.deep_view();
        let mut i: usize = 0;
        while i < deps.len()
            invariant
                i <= deps.len(),
                k < self.tasks.len(),
                tv == self.task_views(),
                dv == tv[k as int].dependencies,
                dv == deps.deep_view(),
                out@.map_values(|k: usize| k as int) == resolve(tv, dv.take(i as int)),
                forall|j: int| 0 <= j < out.len() ==> out@[j] < self.tasks.len(),
            decreases deps.len() - i,
        {
            let ghost before = out@;
            assert(dv.take(i + 1).drop_last() =~= dv.take(i as int));
            let j = self.find_task(&deps[i]);
            proof {
                lemma_task_index_bounds(tv, dv[i as int]);
            }
            if j < self.tasks.len() {
                out.push(j);
                assert(out@.map_values(|k: usize| k as int) =~= before.map_values(
                    |k: usize| k as int,
                ).push(j as int));
            }
            i += 1;
        }
        assert(dv.take(deps.len() as int) =~= dv);
        out
    }

    /// The known direct dependencies of the task named `task_name`, in the
    /// order it lists them.
    pub fn get_task_dependencies(&self, task_name: &str) -> (r: Vec<&Task>)
        ensures
            r.len() == direct_dependencies(self.task_views(), task_name@).len(),
            forall|i: int|
                0 <= i < r.len() ==> r@[i] == self.tasks@[direct_dependencies(
                    self.task_views(),
                    task_name@,
                )[i]],
    {
        let name = String::from_str(task_name);
        let idx = self.dependency_indices(&name);
        let mut out: Vec<&Task> = Vec::new();
        let mut i: usize = 0;
        while i < idx.len()
            invariant
                i <= idx.len(),
                out.len() == i,
                forall|j: int| 0 <= j < idx.len() ==> idx@[j] < self.tasks.len(),
                forall|j: int| 0 <= j < i ==> out@[j] == self.tasks@[idx@[j] as int],
            decreases idx.len() - i,
        {
            out.push(&self.tasks[idx[i]]);
            i += 1;
        }
        proof {
            let dd = direct_dependencies(self.task_views(), task_name@);
            assert forall|j: int| 0 <= j < out.len() implies out@[j] == self.tasks@[dd[j]] by {
                assert(idx@.map_values(|k: usize| k as int)[j] == idx@[j] as int);
            }
        }
        out
    }

    /// The indented dependency tree of the task named `task_name`.
    pub fn dependency_tree(&self, task_name: &str) -> (r: String)
        ensures
            r@ == dependency_tree_text(self.task_views(), task_name@),
    {
        let name = String::from_str(task_name);
        let mut path: Vec<String> = Vec::new();
        let mut lines: Vec<char> = Vec::new();
        let indent: Vec<char> = Vec::new();
        assert(string_views(path@) =~= seq![]);
        assert(indent@ =~= spaces(0));
        self.build_dependency_lines(
            &name,
            Ghost(0),
            Ghost(Seq::empty()),
            &indent,
            &mut path,
            &mut lines,
        );
        assert(lines@ =~= dependency_tree_text(self.task_views(), task_name@));
        string_of(lines.as_slice())
    }

    fn build_dependency_lines(
        &self,
        task_name: &String,
        depth: Ghost<nat>,
        path_names: Ghost<Seq<Seq<char>>>,
        indent: &Vec<char>,
        path: &mut Vec<String>,
        lines: &mut Vec<char>,
    )
        requires
            indent@ == spaces(depth@),
            path_names@ == string_views(old(path)@),
        ensures
            final(path)@ == old(path)@,
            final(lines)@ == old(lines)@ + forest(
                self.task_views(),
                seq![task_name@],
                depth@,
                string_views(old(path)@),
            ),
        decreases unvisited(self.task_views(), path_names@),
    {
        let ghost tv = self.task_views();
        let ghost pv = string_views(path@);
        let ghost start = lines@;
        let mut on_path = false;
        let mut j: usize = 0;
        while j < path.len()
            invariant
                j <= path.len(),
                pv == string_views(path@),
                on_path <==> exists|k: int| 0 <= k < j && pv[k] == task_name@,
            decreases path.len() - j,
        {
            assert(pv[j as int] == path@[j as int]@);
            if path[j] == *task_name {
                on_path = true;
            }
            j += 1;
        }
        assert(on_path == pv.contains(task_name@));
        push_all(lines, indent);
        lines.push('-');
        lines.push(' ');
        let name_chars = crate::text::chars_of(task_name.as_str());
        push_all(lines, &name_chars);
        if on_path {
            lines.push(' ');
            lines.push('(');
            lines.push('c');
            lines.push('y');
            lines.push('c');
            lines.push('l');
            lines.push('e');
            lines.push(')');
            lines.push('\n');
            assert(lines@ =~= start + node_line(task_name@, depth@, true));
            assert(seq![task_name@].drop_first() =~= seq![]);
            assert(seq![task_name@][0] == task_name@);
            assert(forest(tv, seq![], depth@, pv) =~= seq![]);
            assert(lines@ =~= start + forest(tv, seq![task_name@], depth@, pv));
            return;
        }
        lines.push('\n');
        assert(lines@ =~= start + node_line(task_name@, depth@, false));
        let deps = self.dependency_indices(task_name);
        let ghost children = child_names(tv, task_name@);
        let ghost child_path = pv.push(task_name@);
        let mut child_indent: Vec<char> = crate::text::copy_range(indent, 0, indent.len());
        child_indent.push(' ');
        child_indent.push(' ');
        assert(child_indent@ =~= spaces(depth@ + 1));
        path.push(task_name.clone());
        let ghost pushed = path@;
        assert(pushed =~= old(path)@.push(pushed.last()));
        assert(string_views(path@) =~= child_path);
        let mut k: usize = 0;
        assert(children.take(0) =~= seq![]);
        while k < deps.len()
            invariant
                k <= deps.len(),
                tv == self.task_views(),
                children == child_names(tv, task_name@),
                deps@.map_values(|k: usize| k as int) == direct_dependencies(tv, task_name@),
                forall|i: int| 0 <= i < deps.len() ==> deps@[i] < self.tasks.len(),
                child_path == pv.push(task_name@),
                pv == path_names@,
                !pv.contains(task_name@),
                string_views(path@) == child_path,
                path@ == pushed,
                pushed == old(path)@.push(pushed.last()),
                child_indent@ == spaces(depth@ + 1),
                lines@ == start + node_line(task_name@, depth@, false) + forest(
                    tv,
                    children.take(k as int),
                    depth@ + 1,
                    child_path,
                ),
            decreases deps.len() - k,
        {
            let child = &self.tasks[deps[k]].name;
            assert(deps@.map_values(|k: usize| k as int)[k as int] == deps@[k as int] as int);
            assert(child@ == children[k as int]);
            proof {
                assert(children.len() == deps.len());
                lemma_descent(tv, pv, task_name@);
            }
            let ghost before = lines@;
            self.build_dependency_lines(
                child,
                Ghost(depth@ + 1),
                Ghost(child_path),
                &child_indent,
                path,
                lines,
            );
            proof {
                lemma_forest_concat(
                    tv,
                    children.take(k as int),
                    seq![children[k as int]],
                    depth@ + 1,
                    child_path,
                );
                assert(children.take(k as int) + seq![children[k as int]] =~= children.take(
                    k + 1,
                ));
            }
            k += 1;
        }
        path.pop();
        assert(path@ =~= old(path)@);
        assert(children.take(deps.len() as int) =~= children);
        assert(seq![task_name@].drop_first() =~= seq![]);
        assert(seq![task_name@][0] == task_name@);
        assert(forest(tv, seq![], depth@, pv) =~= seq![]);
        assert(lines@ =~= start + forest(tv, seq![task_name@], depth@, pv));
    }
}

/// The history after recording `es` in order, starting from an empty one.
pub open spec fn history_after(es: Seq<TaskExecution>) -> Seq<TaskExecution>
    decreases es.len(),
{
    if es.len() == 0 {
        seq![]
    } else {
        bounded_push(history_after(es.drop_last()), es.last())
    }
}

/// However many runs are recorded, the history holds at most the capacity,
/// and it holds exactly the most recent runs, oldest first.
pub proof fn history_keeps_latest(es: Seq<TaskExecution>)
    ensures
        history_after(es).len() <= HISTORY_CAPACITY,
        history_after(es) == es.skip(
            if es.len() > HISTORY_CAPACITY {
                es.len() - HISTORY_CAPACITY
            } else {
                0
            },
        ),
    decreases es.len(),
{
    if es.len() == 0 {
        assert(es.skip(0) =~= es);
    } else {
        let m = es.len() - 1;
        history_keeps_latest(es.drop_last());
        if m < HISTORY_CAPACITY {
            assert(es.drop_last().skip(0) =~= es.drop_last());
            assert(es.skip(0) =~= es);
            assert(es.drop_last().push(es.last()) =~= es);
        } else {
            let h = es.drop_last().skip(m - HISTORY_CAPACITY);
            assert(h.push(es.last()).drop_first() =~= es.skip(es.len() - HISTORY_CAPACITY));
        }
    }
}

/// Filtering again, with the same tasks and filter text, gives the same
/// indices: a second `apply_filter` changes nothing.
pub proof fn filter_reapplied_is_unchanged(a0: App, a1: App, a2: App)
    requires
        a1 == (App { filtered_tasks: a1.filtered_tasks, ..a0 }),
        a1.filtered_tasks@ == fuzzy_filter(a0.task_views(), a0.filter@),
        a2 == (App { filtered_tasks: a2.filtered_tasks, ..a1 }),
        a2.filtered_tasks@ == fuzzy_filter(a1.task_views(), a1.filter@),
    ensures
        a2.filtered_tasks@ == a1.filtered_tasks@,
{
}

/// Appends the characters of `src` to `dst`.
fn push_all(dst: &mut Vec<char>, src: &Vec<char>)
    ensures
        final(dst)@ == old(dst)@ + src@,
{
    let mut i: usize = 0;
    while i < src.len()
        invariant
            i <= src.len(),
            dst@ == old(dst)@ + src@.take(i as int),
        decreases src.len() - i,
    {
        dst.push(src[i]);
        assert(src@.take(i + 1) =~= src@.take(i as int).push(src@[i as int]));
        i += 1;
    }
    assert(src@.take(src.len() as int) =~= src@);
}

} // verus!
