//! Dependency lookup and the indented dependency tree, with a cycle guard
//! scoped to the current path.
use vstd::prelude::*;
use crate::parser::TaskView;

verus! {

/// Index of the first task named `name`, or `tasks.len()` when there is none.
pub open spec fn task_index(tasks: Seq<TaskView>, name: Seq<char>) -> int
    decreases tasks.len(),
{
    if tasks.len() == 0 {
        0
    } else if tasks[0].name == name {
        0
    } else {
        1 + task_index(tasks.drop_first(), name)
    }
}

/// The indices of the tasks that `deps` name, in order; names that match no
/// task are left out.
pub open spec fn resolve(tasks: Seq<TaskView>, deps: Seq<Seq<char>>) -> Seq<int>
    decreases deps.len(),
{
    if deps.len() == 0 {
        seq![]
    } else {
        let prev = resolve(tasks, deps.drop_last());
        let k = task_index(tasks, deps.last());
        if k < tasks.len() {
            prev.push(k)
        } else {
            prev
        }
    }
}

/// The indices of the known direct dependencies of the task named `name`.
pub open spec fn direct_dependencies(tasks: Seq<TaskView>, name: Seq<char>) -> Seq<int> {
    let k = task_index(tasks, name);
    if k < tasks.len() {
        resolve(tasks, tasks[k].dependencies)
    } else {
        seq![]
    }
}

pub open spec fn child_names(tasks: Seq<TaskView>, name: Seq<char>) -> Seq<Seq<char>> {
    direct_dependencies(tasks, name).map_values(|k: int| tasks[k].name)
}

/// How many tasks have a name that is not on `path`.
pub open spec fn unvisited(tasks: Seq<TaskView>, path: Seq<Seq<char>>) -> nat
    decreases tasks.len(),
{
    if tasks.len() == 0 {
        0
    } else {
        unvisited(tasks.drop_last(), path) + if path.contains(tasks.last().name) {
            0nat
        } else {
            1nat
        }
    }
}

pub open spec fn spaces(depth: nat) -> Seq<char> {
    Seq::new(2 * depth, |i: int| ' ')
}

/// One line of the tree: `- name`, marked `(cycle)` where the name is already
/// on the path.
pub open spec fn node_line(name: Seq<char>, depth: nat, cycle: bool) -> Seq<char> {
    spaces(depth) + seq!['-', ' '] + name + if cycle {
        seq![' ', '(', 'c', 'y', 'c', 'l', 'e', ')', '\n']
    } else {
        seq!['\n']
    }
}

pub proof fn lemma_task_index_bounds(tasks: Seq<TaskView>, name: Seq<char>)
    ensures
        0 <= task_index(tasks, name) <= tasks.len(),
        task_index(tasks, name) < tasks.len() ==> tasks[task_index(tasks, name)].name == name,
    decreases tasks.len(),
{
    if tasks.len() > 0 && tasks[0].name != name {
        lemma_task_index_bounds(tasks.drop_first(), name);
    }
}

/// Putting a name on the path never adds unvisited tasks, and removes one
/// where a task has that name.
pub proof fn lemma_unvisited_push(tasks: Seq<TaskView>, path: Seq<Seq<char>>, name: Seq<char>)
    ensures
        unvisited(tasks, path.push(name)) <= unvisited(tasks, path),
        (exists|i: int| 0 <= i < tasks.len() && tasks[i].name == name) && !path.contains(name)
            ==> unvisited(tasks, path.push(name)) < unvisited(tasks, path),
    decreases tasks.len(),
{
    if tasks.len() > 0 {
        lemma_unvisited_push(tasks.drop_last(), path, name);
        let x = tasks.last().name;
        assert(path.push(name).contains(x) <==> (path.contains(x) || x == name)) by {
            if x == name {
                assert(path.push(name)[path.len() as int] == name);
            }
            if path.contains(x) {
                let j = choose|j: int| 0 <= j < path.len() && path[j] == x;
                assert(path.push(name)[j] == x);
            }
        }
        if (exists|i: int| 0 <= i < tasks.len() && tasks[i].name == name) && !path.contains(
            name,
        ) {
            let i = choose|i: int| 0 <= i < tasks.len() && tasks[i].name == name;
            if i < tasks.len() - 1 {
                assert(tasks.drop_last()[i].name == name);
            }
        }
    }
}

pub proof fn lemma_descent(tasks: Seq<TaskView>, path: Seq<Seq<char>>, name: Seq<char>)
    ensures
        unvisited(tasks, path.push(name)) <= unvisited(tasks, path),
        !path.contains(name) && child_names(tasks, name).len() > 0 ==> unvisited(
            tasks,
            path.push(name),
        ) < unvisited(tasks, path),
{
    lemma_task_index_bounds(tasks, name);
    lemma_unvisited_push(tasks, path, name);
}

/// The tree text of each name of `names` in turn, at `depth`, below `path`.
pub open spec fn forest(
    tasks: Seq<TaskView>,
    names: Seq<Seq<char>>,
    depth: nat,
    path: Seq<Seq<char>>,
) -> Seq<char>
    decreases unvisited(tasks, path), names.len(),
{
    if names.len() == 0 {
        seq![]
    } else {
        let n = names[0];
        let head = if path.contains(n) {
            node_line(n, depth, true)
        } else {
            proof {
                lemma_descent(tasks, path, n);
            }
            node_line(n, depth, false) + forest(
                tasks,
                child_names(tasks, n),
                depth + 1,
                path.push(n),
            )
        };
        head + forest(tasks, names.drop_first(), depth, path)
    }
}

/// The dependency tree of `name`: its line, then each known dependency's
/// tree one level deeper, where a name already on the path is marked as a
/// cycle and not followed.
pub open spec fn dependency_tree_text(tasks: Seq<TaskView>, name: Seq<char>) -> Seq<char> {
    forest(tasks, seq![name], 0, seq![])
}

/// A name that is already on the current path is printed once, marked as a
/// cycle, and not followed; so the tree is finite on a cycle of any length.
pub proof fn cycle_is_marked(
    tasks: Seq<TaskView>,
    name: Seq<char>,
    depth: nat,
    path: Seq<Seq<char>>,
)
    requires
        path.contains(name),
    ensures
        forest(tasks, seq![name], depth, path) == node_line(name, depth, true),
{
    assert(seq![name].drop_first() =~= seq![]);
    assert(forest(tasks, seq![], depth, path) =~= seq![]);
}

pub proof fn lemma_forest_concat(
    tasks: Seq<TaskView>,
    a: Seq<Seq<char>>,
    b: Seq<Seq<char>>,
    depth: nat,
    path: Seq<Seq<char>>,
)
    ensures
        forest(tasks, a + b, depth, path) == forest(tasks, a, depth, path) + forest(
            tasks,
            b,
            depth,
            path,
        ),
    decreases a.len(),
{
    if a.len() == 0 {
        assert(a + b =~= b);
    } else {
        assert((a + b).drop_first() =~= a.drop_first() + b);
        lemma_forest_concat(tasks, a.drop_first(), b, depth, path);
        assert((a + b)[0] == a[0]);
    }
}

} // verus!
