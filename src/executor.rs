//! The decisions of a task run: which command runs next, what the output
//! records of each, and when the run stops. The caller spawns each command
//! and reports how it ended.
use vstd::prelude::*;
use std::path::PathBuf;
use crate::text::string_of;

verus! {

pub open spec fn digit(d: int) -> char {
    if d == 0 {
        '0'
    } else if d == 1 {
        '1'
    } else if d == 2 {
        '2'
    } else if d == 3 {
        '3'
    } else if d == 4 {
        '4'
    } else if d == 5 {
        '5'
    } else if d == 6 {
        '6'
    } else if d == 7 {
        '7'
    } else if d == 8 {
        '8'
    } else {
        '9'
    }
}

/// The decimal digits of `n >= 0`, without leading zeros.
pub open spec fn digits(n: nat) -> Seq<char>
    decreases n,
{
    if n < 10 {
        seq![digit(n as int)]
    } else {
        digits(n / 10).push(digit((n % 10) as int))
    }
}

/// `n` in decimal, with a leading `-` when negative.
pub open spec fn decimal(n: int) -> Seq<char> {
    if n < 0 {
        seq!['-'] + digits((-n) as nat)
    } else {
        digits(n as nat)
    }
}

/// Text of `hundredths / 100` seconds with two decimals, e.g. `12.05`.
pub open spec fn seconds_text(hundredths: nat) -> Seq<char> {
    digits(hundredths / 100) + seq!['.', digit(((hundredths % 100) / 10) as int), digit(
        (hundredths % 10) as int,
    )]
}

/// Microseconds as hundredths of a second, halves rounded up.
pub open spec fn round_hundredths(micros: nat) -> nat {
    micros / 10000 + if micros % 10000 >= 5000 {
        1nat
    } else {
        0nat
    }
}

/// The characters that `String::from_utf8_lossy` makes of `b`.
pub uninterp spec fn utf8_lossy(b: Seq<u8>) -> Seq<char>;

/// Relies on `String::from_utf8_lossy`: the text depends on the bytes alone.
#[verifier::external_body]
fn decode_lossy(b: &[u8]) -> (r: String)
    ensures
        r@ == utf8_lossy(b@),
{
    String::from_utf8_lossy(b).into_owned()
}

fn digit_char(d: u64) -> (r: char)
    requires
        d < 10,
    ensures
        r == digit(d as int),
{
    if d == 0 {
        '0'
    } else if d == 1 {
        '1'
    } else if d == 2 {
        '2'
    } else if d == 3 {
        '3'
    } else if d == 4 {
        '4'
    } else if d == 5 {
        '5'
    } else if d == 6 {
        '6'
    } else if d == 7 {
        '7'
    } else if d == 8 {
        '8'
    } else {
        '9'
    }
}

fn push_digits(n: u64, out: &mut Vec<char>)
    ensures
        final(out)@ == old(out)@ + digits(n as nat),
    decreases n,
{
    if n >= 10 {
        push_digits(n / 10, out);
    }
    out.push(digit_char(n % 10));
    assert(digits(n as nat) == if n < 10 {
        seq![digit(n as int)]
    } else {
        digits((n / 10) as nat).push(digit((n % 10) as int))
    });
    if n < 10 {
        assert(n % 10 == n);
    }
}

/// `n` in decimal.
pub fn decimal_string(n: i32) -> (r: String)
    ensures
        r@ == decimal(n as int),
{
    let mut out: Vec<char> = Vec::new();
    if n < 0 {
        out.push('-');
        let m: u64 = (-(n as i64)) as u64;
        push_digits(m, &mut out);
    } else {
        push_digits(n as u64, &mut out);
    }
    string_of(out.as_slice())
}

/// The line of box-drawing characters that frames a run's output.
pub open spec fn rule_line() -> Seq<char> {
    "────────────────────────────────────────────────────────────\n"@
}

pub open spec fn run_header(task_name: Seq<char>, dir: Seq<char>) -> Seq<char> {
    "executing task: "@ + task_name + "\n"@ + "working directory: "@ + dir + "\n"@ + rule_line()
}

pub open spec fn run_footer(exit_code: i32, hundredths: nat) -> Seq<char> {
    rule_line() + "exit code: "@ + decimal(exit_code as int) + "\n"@ + "execution time: "@
        + seconds_text(hundredths) + "s\n"@
}

/// The exit code recorded for a command that ran: its own, or 1 where it
/// has none (ended by a signal).
pub open spec fn code_of(code: Option<i32>) -> i32 {
    match code {
        Some(c) => c,
        None => 1,
    }
}

/// What the output records of a command that ran.
pub open spec fn exit_text(
    command: Seq<char>,
    code: Option<i32>,
    stdout: Seq<u8>,
    stderr: Seq<u8>,
) -> Seq<char> {
    "$ "@ + command + "\n"@ + utf8_lossy(stdout) + (if stderr.len() > 0 {
        utf8_lossy(stderr)
    } else {
        seq![]
    }) + if code_of(code) != 0 {
        "\nerror: command failed with exit code "@ + decimal(code_of(code) as int) + "\n"@
    } else {
        seq![]
    }
}

/// What the output records of a command that could not be started.
pub open spec fn spawn_failure_text(message: Seq<char>) -> Seq<char> {
    "error executing command: "@ + message + "\n"@
}

/// Runs the commands of tasks in a fixed working directory.
pub struct Executor {
    working_dir: PathBuf,
}

/// One run in progress: the commands, how many have been reported, whether
/// the run has stopped on a failure, the exit code so far and the output.
pub struct ExecutionRun {
    commands: Vec<String>,
    next: usize,
    stopped: bool,
    exit_code: i32,
    output: String,
}

pub ghost struct RunView {
    pub commands: Seq<Seq<char>>,
    pub next: nat,
    pub stopped: bool,
    pub exit_code: i32,
    pub output: Seq<char>,
}

impl View for ExecutionRun {
    type V = RunView;

    closed spec fn view(&self) -> RunView {
        RunView {
            commands: self.commands.deep_view(),
            next: self.next as nat,
            stopped: self.stopped,
            exit_code: self.exit_code,
            output: self.output@,
        }
    }
}

impl RunView {
    /// The command that runs next, if the run goes on.
    pub open spec fn pending(&self) -> Option<Seq<char>> {
        if !self.stopped && self.next < self.commands.len() {
            Some(self.commands[self.next as int])
        } else {
            None
        }
    }

    pub open spec fn after_exit(
        &self,
        code: Option<i32>,
        stdout: Seq<u8>,
        stderr: Seq<u8>,
    ) -> RunView {
        RunView {
            next: self.next + 1,
            stopped: code_of(code) != 0,
            exit_code: code_of(code),
            output: self.output + exit_text(self.commands[self.next as int], code, stdout, stderr),
            ..*self
        }
    }

    pub open spec fn after_spawn_failure(&self, message: Seq<char>) -> RunView {
        RunView {
            next: self.next + 1,
            stopped: true,
            exit_code: 1,
            output: self.output + spawn_failure_text(message),
            ..*self
        }
    }
}

/// The state in which a run starts: nothing reported yet, exit code 0, and
/// the output holding the header.
pub open spec fn initial_run(
    task_name: Seq<char>,
    dir: Seq<char>,
    commands: Seq<Seq<char>>,
) -> RunView {
    RunView {
        commands,
        next: 0,
        stopped: false,
        exit_code: 0,
        output: run_header(task_name, dir),
    }
}

impl Executor {
    pub closed spec fn dir(&self) -> PathBuf {
        self.working_dir
    }

    pub fn new(working_dir: PathBuf) -> (r: Executor)
        ensures
            r.dir() == working_dir,
    {
        Executor { working_dir }
    }

    pub fn working_dir(&self) -> (r: &PathBuf)
        ensures
            *r == self.dir(),
    {
        &self.working_dir
    }

    /// Starts a run of `commands` for `task_name`; `dir_text` is how the
    /// working directory reads in the output.
    pub fn start(&self, task_name: &str, dir_text: &str, commands: Vec<String>) -> (r:
        ExecutionRun)
        ensures
            r@ == initial_run(task_name@, dir_text@, commands.deep_view()),
    {
        let mut output = String::new();
        output.append("executing task: ");
        output.append(task_name);
        output.append("\n");
        output.append("working directory: ");
        output.append(dir_text);
        output.append("\n");
        output.append("────────────────────────────────────────────────────────────\n");
        ExecutionRun { commands, next: 0, stopped: false, exit_code: 0, output }
    }
}

impl ExecutionRun {
    /// The command to run next; `None` once every command has been reported
    /// or one has failed.
    pub fn next_command(&self) -> (r: Option<&String>)
        ensures
            r is Some <==> self@.pending() is Some,
            r is Some ==> r->0@ == self@.pending()->0,
    {
        if !self.stopped && self.next < self.commands.len() {
            Some(&self.commands[self.next])
        } else {
            None
        }
    }

    /// Reports that the pending command ran and ended with `code`, printing
    /// `stdout` and `stderr`. A non-zero code (or none) stops the run.
    pub fn record_exit(&mut self, code: Option<i32>, stdout: &[u8], stderr: &[u8])
        requires
            old(self)@.pending() is Some,
        ensures
            final(self)@ == old(self)@.after_exit(code, stdout@, stderr@),
    {
        let ghost before = self@;
        assert(self.commands.deep_view().len() == self.commands.len());
        let command = &self.commands[self.next];
        assert(command@ == before.commands[before.next as int]);
        self.output.append("$ ");
        self.output.append(command.as_str());
        self.output.append("\n");
        let out = decode_lossy(stdout);
        self.output.append(out.as_str());
        if stderr.len() > 0 {
            let err = decode_lossy(stderr);
            self.output.append(err.as_str());
        }
        let c = match code {
            Some(c) => c,
            None => 1,
        };
        if c != 0 {
            self.output.append("\nerror: command failed with exit code ");
            let d = decimal_string(c);
            self.output.append(d.as_str());
            self.output.append("\n");
        }
        self.exit_code = c;
        self.stopped = c != 0;
        self.next = self.next + 1;
        assert(self@.output =~= before.after_exit(code, stdout@, stderr@).output);
    }

    /// Reports that the pending command could not be started; the run stops
    /// with exit code 1.
    pub fn record_spawn_failure(&mut self, message: &str)
        requires
            old(self)@.pending() is Some,
        ensures
            final(self)@ == old(self)@.after_spawn_failure(message@),
    {
        let ghost before = self@;
        assert(self.commands.deep_view().len() == self.commands.len());
        self.output.append("error executing command: ");
        self.output.append(message);
        self.output.append("\n");
        self.exit_code = 1;
        self.stopped = true;
        self.next = self.next + 1;
        assert(self@.output =~= before.after_spawn_failure(message@).output);
    }

    /// Ends the run after `elapsed_micros` microseconds: the exit code, and
    /// the output closed by the footer with the time in seconds, rounded to
    /// hundredths.
    pub fn finish(self, elapsed_micros: u64) -> (r: (i32, String))
        ensures
            r.0 == self@.exit_code,
            r.1@ == self@.output + run_footer(
                self@.exit_code,
                round_hundredths(elapsed_micros as nat),
            ),
    {
        let hundredths: u64 = elapsed_micros / 10000 + if elapsed_micros % 10000 >= 5000 {
            1u64
        } else {
            0u64
        };
        let mut output = self.output;
        let ghost start = output@;
        output.append("────────────────────────────────────────────────────────────\n");
        output.append("exit code: ");
        let code_text = decimal_string(self.exit_code);
        output.append(code_text.as_str());
        output.append("\n");
        output.append("execution time: ");
        let mut t: Vec<char> = Vec::new();
        push_digits(hundredths / 100, &mut t);
        t.push('.');
        t.push(digit_char((hundredths % 100) / 10));
        t.push(digit_char(hundredths % 10));
        let time_text = string_of(t.as_slice());
        output.append(time_text.as_str());
        output.append("s\n");
        assert(output@ =~= start + run_footer(self.exit_code, hundredths as nat));
        (self.exit_code, output)
    }
}

/// A run with no commands hands none out, keeps exit code 0, and its output
/// is the header and the footer alone.
pub proof fn lemma_empty_run(task_name: Seq<char>, dir: Seq<char>, hundredths: nat)
    ensures
        initial_run(task_name, dir, seq![]).pending() is None,
        initial_run(task_name, dir, seq![]).exit_code == 0,
        initial_run(task_name, dir, seq![]).output + run_footer(
            initial_run(task_name, dir, seq![]).exit_code,
            hundredths,
        ) == run_header(task_name, dir) + run_footer(0, hundredths),
{
}

/// A command that fails ends the run: its code becomes the run's exit code
/// and no further command is handed out, whatever remains.
pub proof fn lemma_failure_stops_run(
    run: RunView,
    code: Option<i32>,
    stdout: Seq<u8>,
    stderr: Seq<u8>,
)
    requires
        run.pending() is Some,
        code_of(code) != 0,
    ensures
        run.after_exit(code, stdout, stderr).pending() is None,
        run.after_exit(code, stdout, stderr).exit_code == code_of(code),
{
}

/// Index of the first non-zero code, or `codes.len()` when all are zero.
pub open spec fn first_failure(codes: Seq<i32>) -> int
    decreases codes.len(),
{
    if codes.len() == 0 {
        0
    } else if codes[0] != 0 {
        0
    } else {
        1 + first_failure(codes.drop_first())
    }
}

proof fn lemma_first_failure_bounds(codes: Seq<i32>)
    ensures
        0 <= first_failure(codes) <= codes.len(),
        first_failure(codes) < codes.len() ==> codes[first_failure(codes)] != 0,
    decreases codes.len(),
{
    if codes.len() > 0 && codes[0] == 0 {
        lemma_first_failure_bounds(codes.drop_first());
    }
}

/// The run after the commands it hands out end with `codes`, in turn, each
/// printing nothing.
pub open spec fn run_codes(run: RunView, codes: Seq<i32>) -> RunView
    decreases codes.len(),
{
    if codes.len() == 0 || run.pending() is None {
        run
    } else {
        run_codes(run.after_exit(Some(codes[0]), seq![], seq![]), codes.drop_first())
    }
}

/// Commands run in order until the first one that fails: exactly the
/// commands up to and including it are handed out, the run's exit code is
/// its code, and nothing after it runs. When none fails, every command runs
/// and the exit code is the last one's, 0.
pub proof fn run_stops_at_first_failure(run: RunView, codes: Seq<i32>)
    requires
        !run.stopped,
        run.next + codes.len() == run.commands.len(),
    ensures
        ({
            let r = run_codes(run, codes);
            let k = first_failure(codes);
            &&& r.pending() is None
            &&& k < codes.len() ==> r.next == run.next + k + 1 && r.exit_code == codes[k]
            &&& k >= codes.len() ==> r.next == run.commands.len() && r.exit_code == if codes.len()
                > 0 {
                0
            } else {
                run.exit_code
            }
        }),
    decreases codes.len(),
{
    lemma_first_failure_bounds(codes);
    if codes.len() > 0 {
        let next = run.after_exit(Some(codes[0]), seq![], seq![]);
        assert(run.pending() is Some);
        if codes[0] == 0 {
            run_stops_at_first_failure(next, codes.drop_first());
            lemma_first_failure_bounds(codes.drop_first());
        } else {
            assert(next.pending() is None);
            assert(run_codes(next, codes.drop_first()) == next);
        }
    }
}

} // verus!
