//! The task model and the two line-structural task-file parsers.
use vstd::prelude::*;
use crate::text::{
    chars_of, copy_range, lines, rows, split_lines, starts_with, string_of,
    strip_leading, trim, trim_bounds, words, words_in,
};

verus! {

/// The dialect a task was read from.
#[derive(Debug, Clone, Copy, PartialEq, Eq, Structural)]
pub enum FileType {
    Makefile,
    Justfile,
}

/// One runnable target of a task file.
#[derive(Debug, Clone)]
pub struct Task {
    pub name: String,
    pub description: String,
    pub dependencies: Vec<String>,
    pub commands: Vec<String>,
    pub file_type: FileType,
}

/// What a task holds, as character sequences.
pub ghost struct TaskView {
    pub name: Seq<char>,
    pub description: Seq<char>,
    pub dependencies: Seq<Seq<char>>,
    pub commands: Seq<Seq<char>>,
    pub file_type: FileType,
}

impl View for Task {
    type V = TaskView;

    open spec fn view(&self) -> TaskView {
        TaskView {
            name: self.name@,
            description: self.description@,
            dependencies: self.dependencies.deep_view(),
            commands: self.commands.deep_view(),
            file_type: self.file_type,
        }
    }
}

pub open spec fn task_views(v: Seq<Task>) -> Seq<TaskView> {
    v.map_values(|t: Task| t@)
}

/// Index of the first `c` in `s`, or `s.len()` when there is none.
pub open spec fn first_index(s: Seq<char>, c: char) -> int
    decreases s.len(),
{
    if s.len() == 0 {
        0
    } else if s[0] == c {
        0
    } else {
        1 + first_index(s.drop_first(), c)
    }
}

/// The name of a `name: deps` header: the text before the first `:`, trimmed.
pub open spec fn header_name(h: Seq<char>) -> Seq<char> {
    trim(h.take(first_index(h, ':')))
}

/// The dependencies of a `name: deps` header: the words after the first `:`.
pub open spec fn header_deps(h: Seq<char>) -> Seq<Seq<char>> {
    let k = first_index(h, ':');
    if k < h.len() {
        words(h.subrange(k + 1, h.len() as int))
    } else {
        seq![]
    }
}

pub open spec fn is_comment(l: Seq<char>) -> bool {
    starts_with(l, '#')
}

/// The text of a comment line: leading `#`s and surrounding whitespace removed.
pub open spec fn comment_text(l: Seq<char>) -> Seq<char> {
    trim(strip_leading(l, '#'))
}

/// A Makefile target header: not indented, not a comment, holds a `:`.
pub open spec fn is_target_header(l: Seq<char>) -> bool {
    !starts_with(l, '\t') && !starts_with(l, ' ') && !starts_with(l, '#') && l.contains(':')
}

pub open spec fn command_text(l: Seq<char>) -> Seq<char> {
    strip_leading(l, '\t')
}

/// A Makefile command line: tab-indented with something after the tabs.
pub open spec fn is_command_line(l: Seq<char>) -> bool {
    starts_with(l, '\t') && command_text(l).len() > 0
}

/// The description that the line before a header at `i` gives it.
pub open spec fn make_description(ls: Seq<Seq<char>>, i: int) -> Seq<char> {
    if i >= 1 && is_comment(ls[i - 1]) {
        comment_text(ls[i - 1])
    } else {
        seq![]
    }
}

pub open spec fn make_task_at(ls: Seq<Seq<char>>, i: int) -> TaskView {
    TaskView {
        name: header_name(ls[i]),
        description: make_description(ls, i),
        dependencies: header_deps(ls[i]),
        commands: seq![],
        file_type: FileType::Makefile,
    }
}

pub open spec fn with_command(t: TaskView, c: Seq<char>) -> TaskView {
    TaskView { commands: t.commands.push(c), ..t }
}

/// The tasks of a Makefile given as lines: each header opens a task, and each
/// command line adds to the task opened last.
pub open spec fn make_tasks(ls: Seq<Seq<char>>) -> Seq<TaskView>
    decreases ls.len(),
{
    if ls.len() == 0 {
        seq![]
    } else {
        let prev = make_tasks(ls.drop_last());
        let l = ls.last();
        if is_target_header(l) {
            prev.push(make_task_at(ls, ls.len() - 1))
        } else if is_command_line(l) && prev.len() > 0 {
            prev.update(prev.len() - 1, with_command(prev.last(), command_text(l)))
        } else {
            prev
        }
    }
}

/// A character that `char::is_alphabetic` accepts.
pub uninterp spec fn alphabetic(c: char) -> bool;

/// A Justfile recipe header (already trimmed): starts with a letter or `_`
/// and holds a `:`.
pub open spec fn is_recipe_header(t: Seq<char>) -> bool {
    t.len() > 0 && (alphabetic(t[0]) || t[0] == '_') && t.contains(':')
}

pub open spec fn is_indented(l: Seq<char>) -> bool {
    starts_with(l, ' ') || starts_with(l, '\t')
}

/// The first line at or after `j` that is not indented (or the end).
pub open spec fn body_end(ls: Seq<Seq<char>>, j: int) -> int
    decreases ls.len() - j,
{
    if 0 <= j < ls.len() && is_indented(ls[j]) {
        body_end(ls, j + 1)
    } else {
        j
    }
}

/// The non-empty trimmed lines of `ls[j..end]`.
pub open spec fn body_commands(ls: Seq<Seq<char>>, j: int, end: int) -> Seq<Seq<char>>
    decreases end - j,
{
    if end <= j {
        seq![]
    } else {
        let b = body_commands(ls, j, end - 1);
        let t = trim(ls[end - 1]);
        if t.len() > 0 {
            b.push(t)
        } else {
            b
        }
    }
}

pub open spec fn recipe(h: Seq<char>, description: Seq<char>, commands: Seq<Seq<char>>) -> TaskView {
    TaskView {
        name: header_name(h),
        description,
        dependencies: header_deps(h),
        commands,
        file_type: FileType::Justfile,
    }
}

/// Whether the line at `i` is a comment that documents a recipe header on the next line.
pub open spec fn is_documented_at(ls: Seq<Seq<char>>, i: int) -> bool {
    0 <= i && i + 1 < ls.len() && starts_with(trim(ls[i]), '#') && is_recipe_header(
        trim(ls[i + 1]),
    )
}

pub proof fn lemma_body_end_bounds(ls: Seq<Seq<char>>, j: int)
    requires
        0 <= j,
    ensures
        j <= body_end(ls, j),
        j <= ls.len() ==> body_end(ls, j) <= ls.len(),
    decreases ls.len() - j,
{
    if 0 <= j < ls.len() && is_indented(ls[j]) {
        lemma_body_end_bounds(ls, j + 1);
    }
}

/// The recipes of a Justfile given as lines, from line `i` on.
pub open spec fn just_tasks_from(ls: Seq<Seq<char>>, i: int) -> Seq<TaskView>
    decreases ls.len() - i,
{
    if i < 0 || i >= ls.len() {
        seq![]
    } else if is_documented_at(ls, i) {
        let end = body_end(ls, i + 2);
        proof {
            lemma_body_end_bounds(ls, i + 2);
        }
        seq![
            recipe(
                trim(ls[i + 1]),
                comment_text(trim(ls[i])),
                body_commands(ls, i + 2, end),
            ),
        ] + just_tasks_from(ls, end)
    } else if is_recipe_header(trim(ls[i])) && !starts_with(trim(ls[i]), '#') {
        let end = body_end(ls, i + 1);
        proof {
            lemma_body_end_bounds(ls, i + 1);
        }
        seq![recipe(trim(ls[i]), seq![], body_commands(ls, i + 1, end))] + just_tasks_from(
            ls,
            end,
        )
    } else {
        just_tasks_from(ls, i + 1)
    }
}

pub open spec fn just_tasks(ls: Seq<Seq<char>>) -> Seq<TaskView> {
    just_tasks_from(ls, 0)
}

/// Relies on `char::is_alphabetic`: the answer depends on the character alone.
#[verifier::external_body]
fn is_alpha(c: char) -> (r: bool)
    ensures
        r == alphabetic(c),
{
    c.is_alphabetic()
}

/// Index of the first `c` in `s`, or `s.len()`.
pub fn find_char(s: &Vec<char>, c: char) -> (r: usize)
    ensures
        r == first_index(s@, c),
        r <= s.len(),
        (r < s.len()) == s@.contains(c),
{
    let mut i: usize = 0;
    assert(s@.skip(0) =~= s@);
    while i < s.len() && s[i] != c
        invariant
            i <= s.len(),
            first_index(s@, c) == i + first_index(s@.skip(i as int), c),
            forall|j: int| 0 <= j < i ==> s@[j] != c,
        decreases s.len() - i,
    {
        assert(s@.skip(i as int).drop_first() =~= s@.skip(i + 1));
        i += 1;
    }
    proof {
        if i < s.len() {
            assert(s@[i as int] == c);
        } else {
            assert(s@.skip(i as int).len() == 0);
        }
    }
    i
}

/// Number of leading `c`s of `s`: `strip_leading(s, c)` is what follows them.
pub fn count_leading(s: &Vec<char>, c: char) -> (r: usize)
    ensures
        r <= s.len(),
        strip_leading(s@, c) == s@.skip(r as int),
{
    let mut i: usize = 0;
    assert(s@.skip(0) =~= s@);
    while i < s.len() && s[i] == c
        invariant
            i <= s.len(),
            strip_leading(s@, c) == strip_leading(s@.skip(i as int), c),
        decreases s.len() - i,
    {
        assert(s@.skip(i as int).drop_first() =~= s@.skip(i + 1));
        i += 1;
    }
    i
}

fn first_is(s: &Vec<char>, c: char) -> (r: bool)
    ensures
        r == starts_with(s@, c),
{
    s.len() > 0 && s[0] == c
}

/// The trimmed copy of a whole line.
fn trimmed(s: &Vec<char>) -> (r: Vec<char>)
    ensures
        r@ == trim(s@),
{
    let (a, b) = trim_bounds(s, 0, s.len());
    assert(s@.subrange(0, s.len() as int) =~= s@);
    copy_range(s, a, b)
}

/// Name and dependencies of a `name: deps` header.
fn header_parts(h: &Vec<char>) -> (r: (String, Vec<String>))
    ensures
        r.0@ == header_name(h@),
        r.1.deep_view() == header_deps(h@),
{
    let k = find_char(h, ':');
    let (a, b) = trim_bounds(h, 0, k);
    assert(h@.subrange(0, k as int) =~= h@.take(k as int));
    let name_chars = copy_range(h, a, b);
    let name = string_of(name_chars.as_slice());
    let deps = if k < h.len() {
        words_in(h, k + 1, h.len())
    } else {
        let empty: Vec<String> = Vec::new();
        assert(empty.deep_view() =~= seq![]);
        empty
    };
    (name, deps)
}

/// Text of a comment line, as `comment_text` describes it.
fn comment_of(l: &Vec<char>) -> (r: String)
    ensures
        r@ == comment_text(l@),
{
    let k = count_leading(l, '#');
    let (a, b) = trim_bounds(l, k, l.len());
    assert(l@.subrange(k as int, l.len() as int) =~= l@.skip(k as int));
    let t = copy_range(l, a, b);
    string_of(t.as_slice())
}

fn is_target_header_line(l: &Vec<char>) -> (r: bool)
    ensures
        r == is_target_header(l@),
{
    let k = find_char(l, ':');
    !first_is(l, '\t') && !first_is(l, ' ') && !first_is(l, '#') && k < l.len()
}

fn is_recipe_header_line(t: &Vec<char>) -> (r: bool)
    ensures
        r == is_recipe_header(t@),
{
    if t.len() == 0 {
        return false;
    }
    let k = find_char(t, ':');
    (is_alpha(t[0]) || t[0] == '_') && k < t.len()
}

fn is_indented_line(l: &Vec<char>) -> (r: bool)
    ensures
        r == is_indented(l@),
{
    first_is(l, ' ') || first_is(l, '\t')
}

/// The task files that a directory may hold.
#[derive(Debug, Clone, Copy, PartialEq, Eq, Structural)]
pub enum TaskFile {
    LowerJustfile,
    UpperJustfile,
    Makefile,
}

impl TaskFile {
    pub open spec fn spec_file_type(&self) -> FileType {
        match self {
            TaskFile::Makefile => FileType::Makefile,
            _ => FileType::Justfile,
        }
    }

    /// The dialect of this file.
    pub fn file_type(&self) -> (r: FileType)
        ensures
            r == self.spec_file_type(),
    {
        match self {
            TaskFile::Makefile => FileType::Makefile,
            _ => FileType::Justfile,
        }
    }

    /// The name of this file within its directory.
    pub fn file_name(&self) -> (r: &'static str)
        ensures
            r@ == match self {
                TaskFile::LowerJustfile => "justfile"@,
                TaskFile::UpperJustfile => "Justfile"@,
                TaskFile::Makefile => "Makefile"@,
            },
    {
        match self {
            TaskFile::LowerJustfile => "justfile",
            TaskFile::UpperJustfile => "Justfile",
            TaskFile::Makefile => "Makefile",
        }
    }
}

/// Chooses and runs the parser for task files; holds which dialect it reads.
pub struct Parser {
    file_type: FileType,
}

impl Parser {
    pub fn new(file_type: FileType) -> (r: Parser)
        ensures
            r.file_type() == file_type,
    {
        Parser { file_type }
    }

    pub closed spec fn file_type(&self) -> FileType {
        self.file_type
    }

    /// The file to read, given which ones exist: `justfile`, then
    /// `Justfile`, then `Makefile`; `None` when there is none of them.
    pub fn choose_task_file(has_lower_justfile: bool, has_upper_justfile: bool, has_makefile: bool)
        -> (r: Option<TaskFile>)
        ensures
            r == if has_lower_justfile {
                Some(TaskFile::LowerJustfile)
            } else if has_upper_justfile {
                Some(TaskFile::UpperJustfile)
            } else if has_makefile {
                Some(TaskFile::Makefile)
            } else {
                None::<TaskFile>
            },
    {
        if has_lower_justfile {
            Some(TaskFile::LowerJustfile)
        } else if has_upper_justfile {
            Some(TaskFile::UpperJustfile)
        } else if has_makefile {
            Some(TaskFile::Makefile)
        } else {
            None
        }
    }

    /// The tasks of `content` read in this parser's dialect.
    pub fn parse(&self, content: &str) -> (r: (Vec<Task>, FileType))
        ensures
            r.1 == self.file_type(),
            task_views(r.0@) == (match self.file_type() {
                FileType::Makefile => make_tasks(lines(content@)),
                FileType::Justfile => just_tasks(lines(content@)),
            }),
    {
        match self.file_type {
            FileType::Makefile => Parser::parse_makefile(content),
            FileType::Justfile => Parser::parse_justfile(content),
        }
    }

    /// Reads a Makefile: one task per target header, in order.
    pub fn parse_makefile(content: &str) -> (r: (Vec<Task>, FileType))
        ensures
            r.1 == FileType::Makefile,
            task_views(r.0@) == make_tasks(lines(content@)),
    {
        let chars = chars_of(content);
        let ls = split_lines(&chars);
        let ghost lv = lines(content@);
        let mut tasks: Vec<Task> = Vec::new();
        let mut i: usize = 0;
        while i < ls.len()
            invariant
                i <= ls.len(),
                rows(ls@) == lv,
                task_views(tasks@) == make_tasks(lv.take(i as int)),
            decreases ls.len() - i,
        {
            let line = &ls[i];
            let ghost before = tasks@;
            assert(lv.take(i + 1).drop_last() =~= lv.take(i as int));
            assert(lv.take(i + 1).last() == line@);
            if is_target_header_line(line) {
                let (name, dependencies) = header_parts(line);
                let description = if i > 0 && first_is(&ls[i - 1], '#') {
                    comment_of(&ls[i - 1])
                } else {
                    String::new()
                };
                let commands: Vec<String> = Vec::new();
                let t = Task {
                    name,
                    description,
                    dependencies,
                    commands,
                    file_type: FileType::Makefile,
                };
                assert(t.commands.deep_view() =~= seq![]);
                assert(t@ == make_task_at(lv.take(i + 1), i as int));
                tasks.push(t);
                assert(task_views(tasks@) =~= task_views(before).push(t@));
            } else if first_is(line, '\t') && tasks.len() > 0 {
                let k = count_leading(line, '\t');
                if k < line.len() {
                    let c = copy_range(line, k, line.len());
                    assert(c@ =~= command_text(line@));
                    let cmd = string_of(c.as_slice());
                    let mut last = tasks.pop().unwrap();
                    let ghost last_before = last;
                    last.commands.push(cmd);
                    assert(last.commands.deep_view() =~= last_before.commands.deep_view().push(
                        cmd@,
                    ));
                    tasks.push(last);
                    assert(task_views(tasks@) =~= task_views(before).update(
                        before.len() - 1,
                        with_command(task_views(before).last(), command_text(line@)),
                    ));
                }
            }
            i += 1;
        }
        assert(lv.take(ls.len() as int) =~= lv);
        (tasks, FileType::Makefile)
    }

    /// Reads a Justfile: documented and undocumented recipes with their
    /// indented bodies, in order.
    pub fn parse_justfile(content: &str) -> (r: (Vec<Task>, FileType))
        ensures
            r.1 == FileType::Justfile,
            task_views(r.0@) == just_tasks(lines(content@)),
    {
        let chars = chars_of(content);
        let ls = split_lines(&chars);
        let ghost lv = lines(content@);
        let mut tasks: Vec<Task> = Vec::new();
        let mut i: usize = 0;
        while i < ls.len()
            invariant
                i <= ls.len(),
                rows(ls@) == lv,
                just_tasks(lv) == task_views(tasks@) + just_tasks_from(lv, i as int),
            decreases ls.len() - i,
        {
            let ghost before = tasks@;
            let t = trimmed(&ls[i]);
            let mut documented = false;
            if first_is(&t, '#') && i + 1 < ls.len() {
                let next = trimmed(&ls[i + 1]);
                documented = is_recipe_header_line(&next);
            }
            if documented || (is_recipe_header_line(&t) && !first_is(&t, '#')) {
                let header = if documented {
                    trimmed(&ls[i + 1])
                } else {
                    trimmed(&ls[i])
                };
                let description = if documented {
                    comment_of(&t)
                } else {
                    String::new()
                };
                let start = if documented {
                    i + 2
                } else {
                    i + 1
                };
                let (name, dependencies) = header_parts(&header);
                let mut commands: Vec<String> = Vec::new();
                let mut j = start;
                assert(commands.deep_view() =~= body_commands(lv, start as int, j as int));
                while j < ls.len() && is_indented_line(&ls[j])
                    invariant
                        start <= j <= ls.len(),
                        rows(ls@) == lv,
                        body_end(lv, start as int) == body_end(lv, j as int),
                        commands.deep_view() == body_commands(lv, start as int, j as int),
                    decreases ls.len() - j,
                {
                    let c = trimmed(&ls[j]);
                    let ghost cb = commands.deep_view();
                    if c.len() > 0 {
                        let s = string_of(c.as_slice());
                        commands.push(s);
                        assert(commands.deep_view() =~= cb.push(s@));
                    }
                    j += 1;
                }
                let task = Task {
                    name,
                    description,
                    dependencies,
                    commands,
                    file_type: FileType::Justfile,
                };
                tasks.push(task);
                proof {
                    assert(task_views(tasks@) =~= task_views(before).push(task@));
                    assert(task_views(before).push(task@) + just_tasks_from(lv, j as int)
                        =~= task_views(before) + just_tasks_from(lv, i as int));
                }
                i = j;
            } else {
                i += 1;
            }
        }
        (tasks, FileType::Justfile)
    }
}

/// The indices of the target headers among `ls`, in order.
pub open spec fn header_lines(ls: Seq<Seq<char>>) -> Seq<int>
    decreases ls.len(),
{
    if ls.len() == 0 {
        seq![]
    } else if is_target_header(ls.last()) {
        header_lines(ls.drop_last()).push(ls.len() - 1)
    } else {
        header_lines(ls.drop_last())
    }
}

/// The command texts of the command lines among `ls[j..end]`, in order.
pub open spec fn command_lines(ls: Seq<Seq<char>>, j: int, end: int) -> Seq<Seq<char>>
    decreases end - j,
{
    if end <= j {
        seq![]
    } else {
        let b = command_lines(ls, j, end - 1);
        if is_command_line(ls[end - 1]) {
            b.push(command_text(ls[end - 1]))
        } else {
            b
        }
    }
}

/// Where the block of the `k`-th header ends: at the next header, or at the end.
pub open spec fn block_end(ls: Seq<Seq<char>>, k: int) -> int {
    if k + 1 < header_lines(ls).len() {
        header_lines(ls)[k + 1]
    } else {
        ls.len() as int
    }
}

proof fn lemma_command_lines_frame(ls: Seq<Seq<char>>, j: int, end: int)
    requires
        0 <= j,
        end <= ls.len() - 1,
    ensures
        command_lines(ls, j, end) == command_lines(ls.drop_last(), j, end),
    decreases end - j,
{
    if end > j {
        lemma_command_lines_frame(ls, j, end - 1);
        assert(ls.drop_last()[end - 1] == ls[end - 1]);
    }
}

/// Task `k` comes from the `k`-th target header: name, dependencies and
/// description from the header, commands from the command lines of its block.
pub open spec fn task_matches_header(ls: Seq<Seq<char>>, k: int) -> bool {
    let h = header_lines(ls)[k];
    &&& 0 <= h < ls.len()
    &&& is_target_header(ls[h])
    &&& make_tasks(ls)[k] == (TaskView {
        commands: command_lines(ls, h + 1, block_end(ls, k)),
        ..make_task_at(ls, h)
    })
}

proof fn lemma_header_step(ls: Seq<Seq<char>>, k: int)
    requires
        ls.len() > 0,
        make_tasks(ls.drop_last()).len() == header_lines(ls.drop_last()).len(),
        forall|i: int|
            0 <= i < header_lines(ls.drop_last()).len() ==> #[trigger] task_matches_header(
                ls.drop_last(),
                i,
            ),
        0 <= k < header_lines(ls).len(),
    ensures
        task_matches_header(ls, k),
{
    let p = ls.drop_last();
    let n = ls.len() as int;
    let hp = header_lines(p);
    let hl = header_lines(ls);
    if k < hp.len() {
        assert(task_matches_header(p, k));
        let h = hp[k];
        assert(hl[k] == h);
        assert(make_task_at(ls, h) == make_task_at(p, h));
        if k + 1 < hp.len() {
            assert(hl[k + 1] == hp[k + 1]);
            assert(task_matches_header(p, k + 1));
            lemma_command_lines_frame(ls, h + 1, block_end(p, k));
        } else if is_target_header(ls.last()) {
            lemma_command_lines_frame(ls, h + 1, n - 1);
        } else {
            lemma_command_lines_frame(ls, h + 1, n - 1);
        }
    } else {
        assert(hl[k] == n - 1);
        assert(command_lines(ls, n, n) =~= seq![]);
    }
}

/// Every task of a Makefile comes from its target header, in order.
pub proof fn lemma_make_tasks_by_header(ls: Seq<Seq<char>>)
    ensures
        make_tasks(ls).len() == header_lines(ls).len(),
        forall|k: int| 0 <= k < header_lines(ls).len() ==> #[trigger] task_matches_header(ls, k),
    decreases ls.len(),
{
    if ls.len() > 0 {
        lemma_make_tasks_by_header(ls.drop_last());
        assert forall|k: int| 0 <= k < header_lines(ls).len() implies #[trigger] task_matches_header(
            ls,
            k,
        ) by {
            lemma_header_step(ls, k);
        }
    }
}

/// A target header right after a `#` comment line gets that comment, without
/// the `#`s and the surrounding whitespace, as its description; any other
/// header gets an empty one.
pub proof fn makefile_description_from_comment(content: Seq<char>, k: int)
    requires
        0 <= k < make_tasks(lines(content)).len(),
    ensures
        ({
            let ls = lines(content);
            let h = header_lines(ls)[k];
            &&& 0 <= h < ls.len()
            &&& is_target_header(ls[h])
            &&& h >= 1 && is_comment(ls[h - 1]) ==> make_tasks(ls)[k].description
                == comment_text(ls[h - 1])
            &&& !(h >= 1 && is_comment(ls[h - 1])) ==> make_tasks(ls)[k].description.len() == 0
        }),
{
    lemma_make_tasks_by_header(lines(content));
    assert(task_matches_header(lines(content), k));
}

/// The commands of a Makefile task are exactly the tab-indented, non-empty
/// lines between its header and the next header (or the end), in order,
/// with the leading tabs removed.
pub proof fn makefile_commands_of_block(content: Seq<char>, k: int)
    requires
        0 <= k < make_tasks(lines(content)).len(),
    ensures
        ({
            let ls = lines(content);
            make_tasks(ls)[k].commands == command_lines(
                ls,
                header_lines(ls)[k] + 1,
                block_end(ls, k),
            )
        }),
{
    lemma_make_tasks_by_header(lines(content));
    assert(task_matches_header(lines(content), k));
}

proof fn lemma_body_shift(c: Seq<char>, rest: Seq<Seq<char>>, j: int)
    requires
        0 <= j,
    ensures
        body_end(seq![c] + rest, j + 1) == body_end(rest, j) + 1,
    decreases rest.len() - j,
{
    let ls = seq![c] + rest;
    if 0 <= j < rest.len() {
        assert(ls[j + 1] == rest[j]);
        if is_indented(rest[j]) {
            lemma_body_shift(c, rest, j + 1);
        }
    }
}

proof fn lemma_commands_shift(c: Seq<char>, rest: Seq<Seq<char>>, j: int, end: int)
    requires
        0 <= j,
        end <= rest.len(),
    ensures
        body_commands(seq![c] + rest, j + 1, end + 1) == body_commands(rest, j, end),
    decreases end - j,
{
    if end > j {
        lemma_commands_shift(c, rest, j, end - 1);
        assert((seq![c] + rest)[end] == rest[end - 1]);
    }
}

/// A Justfile recipe reads the same with or without a `#` comment line in
/// front of its header: name, dependencies and commands agree, and only the
/// description differs (the comment's text, or empty).
pub proof fn justfile_comment_changes_only_description(comment: Seq<char>, rest: Seq<Seq<char>>)
    requires
        starts_with(trim(comment), '#'),
        rest.len() > 0,
        is_recipe_header(trim(rest[0])),
        !starts_with(trim(rest[0]), '#'),
    ensures
        just_tasks(seq![comment] + rest).len() > 0,
        just_tasks(rest).len() > 0,
        just_tasks(seq![comment] + rest)[0].name == just_tasks(rest)[0].name,
        just_tasks(seq![comment] + rest)[0].dependencies == just_tasks(rest)[0].dependencies,
        just_tasks(seq![comment] + rest)[0].commands == just_tasks(rest)[0].commands,
        just_tasks(seq![comment] + rest)[0].description == comment_text(trim(comment)),
        just_tasks(rest)[0].description.len() == 0,
{
    let ls = seq![comment] + rest;
    assert(ls[0] == comment);
    assert(ls[1] == rest[0]);
    assert(is_documented_at(ls, 0));
    lemma_body_end_bounds(ls, 2);
    lemma_body_end_bounds(rest, 1);
    lemma_body_shift(comment, rest, 1);
    lemma_commands_shift(comment, rest, 1, body_end(rest, 1));
}

} // verus!
