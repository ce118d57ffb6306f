//! Commands: how a shell is started for one, and what comes of it.

use crate::text::{decimal, decimal_text, lemma_line_end, line_end, split_lines, text_views};
use vstd::prelude::*;

verus! {

// ---------------------------------------------------------------------------------------------
// Starting a command
// ---------------------------------------------------------------------------------------------

/// How a command is to run.
#[derive(Debug, PartialEq)]
pub struct ExecOptions {
    /// Where it runs, if not where the environment is.
    pub cwd: Option<String>,
    /// Variables that are set on top of those it inherits.
    pub env: Option<Vec<(String, String)>>,
    pub timeout_secs: Option<u64>,
}

impl Default for ExecOptions {
    fn default() -> (r: ExecOptions)
        ensures
            r.cwd is None,
            r.env is None,
            r.timeout_secs is None,
    {
        ExecOptions { cwd: None, env: None, timeout_secs: None }
    }
}

/// The process to start.
#[derive(Debug, PartialEq)]
pub struct ExecPlan {
    pub program: String,
    pub args: Vec<String>,
    pub cwd: String,
    pub env: Vec<(String, String)>,
    pub timeout_secs: Option<u64>,
}

/// `plan` runs `command` in a shell, in the directory that the options name or else in
/// `standing`.
pub open spec fn runs(
    plan: ExecPlan,
    command: Seq<char>,
    standing: Seq<char>,
    options: ExecOptions,
) -> bool {
    &&& plan.program@ == "sh"@
    &&& plan.args@.len() == 2
    &&& plan.args@[0]@ == "-c"@
    &&& plan.args@[1]@ == command
    &&& plan.cwd@ == match options.cwd {
        Some(cwd) => cwd@,
        None => standing,
    }
    &&& plan.env@ == match options.env {
        Some(env) => env@,
        None => Seq::empty(),
    }
    &&& plan.timeout_secs == options.timeout_secs
}

/// A command that is about to be started.
#[derive(Debug, PartialEq)]
pub struct StartingExec {
    timeout_secs: Option<u64>,
}

/// A command that runs.
#[derive(Debug, PartialEq)]
pub struct RunningExec {
    timeout_secs: Option<u64>,
}

/// A command that has come to an end, and whose streams are still to be drained.
#[derive(Debug, PartialEq)]
pub struct EndingExec {
    outcome: ExecOutcome,
    timeout_secs: Option<u64>,
}

/// `r` is what becomes of a command that was about to be started, once the system has answered.
pub open spec fn started(
    r: Result<RunningExec, ExecutionError>,
    starting: StartingExec,
    answer: Result<(), String>,
) -> bool {
    match (answer, r) {
        (Ok(_), Ok(running)) => running.timeout() == starting.timeout(),
        (Err(message), Err(error)) => error.code == ExecutionErrorCode::SpawnFailed
            && error.message == message,
        _ => false,
    }
}

impl StartingExec {
    /// The time that it has.
    pub closed spec fn timeout(self) -> Option<u64> {
        self.timeout_secs
    }

    /// The system was asked to start the process: the command runs, or there is an error.
    pub fn spawned(self, answer: Result<(), String>) -> (r: Result<RunningExec, ExecutionError>)
        ensures
            match answer {
                Ok(_) => r matches Ok(running) && running.timeout() == self.timeout(),
                Err(message) => r matches Err(error) && error.code
                    == ExecutionErrorCode::SpawnFailed && error.message == message,
            },
            started(r, self, answer),
    {
        match answer {
            Ok(_) => Ok(RunningExec { timeout_secs: self.timeout_secs }),
            Err(message) => Err(ExecutionError::new(ExecutionErrorCode::SpawnFailed, message)),
        }
    }
}

/// The process that runs `command`, to be started.
pub fn start_exec(command: &str, standing: &str, options: ExecOptions) -> (r: (
    StartingExec,
    ExecPlan,
))
    ensures
        r.0.timeout() == options.timeout_secs,
        runs(r.1, command@, standing@, options),
        r.1.program@ == "sh"@,
        text_views(r.1.args@) == seq!["-c"@, command@],
{
    let timeout_secs = options.timeout_secs;
    let cwd = match options.cwd {
        Some(cwd) => cwd,
        None => standing.to_string(),
    };
    let env = match options.env {
        Some(env) => env,
        None => Vec::new(),
    };
    let mut args: Vec<String> = Vec::new();
    args.push(String::from_str("-c"));
    args.push(command.to_string());
    let plan = ExecPlan { program: String::from_str("sh"), args, cwd, env, timeout_secs };
    assert(text_views(plan.args@) =~= seq!["-c"@, command@]);
    (StartingExec { timeout_secs }, plan)
}

// ---------------------------------------------------------------------------------------------
// What a command writes
// ---------------------------------------------------------------------------------------------

/// What one of a command's streams has brought.
#[derive(Debug, PartialEq)]
pub struct StreamBuffer {
    pub text: String,
}

/// Lines, each with a newline behind it.
pub open spec fn drained(lines: Seq<Seq<char>>) -> Seq<char>
    decreases lines.len(),
{
    if lines.len() == 0 {
        Seq::empty()
    } else {
        drained(lines.drop_last()) + lines.last().push('\n')
    }
}

impl StreamBuffer {
    /// Nothing has come yet.
    pub fn new() -> (r: StreamBuffer)
        ensures
            r.text@ == drained(Seq::empty()),
    {
        let text = String::new();
        assert(text@ =~= Seq::<char>::empty());
        StreamBuffer { text }
    }

    /// Takes a line in.
    pub fn on_line(&mut self, line: &str)
        ensures
            final(self).text@ == old(self).text@ + line@.push('\n'),
            forall|lines: Seq<Seq<char>>|
                old(self).text@ == #[trigger] drained(lines) ==> final(self).text@ == drained(
                    lines.push(line@),
                ),
    {
        let ghost before = self.text@;
        self.text.push_str(line);
        self.text.push('\n');
        proof {
            assert(self.text@ =~= before + line@.push('\n'));
            assert forall|lines: Seq<Seq<char>>| before == #[trigger] drained(lines) implies
                self.text@ == drained(lines.push(line@)) by {
                assert(lines.push(line@).drop_last() =~= lines);
            }
        }
    }
}

// ---------------------------------------------------------------------------------------------
// How a command ends
// ---------------------------------------------------------------------------------------------

/// How the process ended.
#[derive(Debug, PartialEq)]
pub enum ProcessEnd {
    /// It exited; a process that a signal killed has no exit code.
    Exited { code: Option<i32> },
    /// The system could not say.
    WaitFailed { message: String },
}

/// What has happened so far.
#[derive(Debug, PartialEq)]
pub struct ExecProgress {
    /// The caller has called the command off.
    pub aborted: bool,
    /// The time is up.
    pub timed_out: bool,
    /// The process has ended.
    pub ended: Option<ProcessEnd>,
}

/// How it came to an end.
#[derive(Debug, PartialEq)]
pub enum ExecOutcome {
    Completed(ProcessEnd),
    TimedOut,
    Aborted,
}

#[derive(Clone, Copy, Debug, PartialEq, Eq, Structural)]
pub enum ExecutionErrorCode {
    SpawnFailed,
    Timeout,
    Aborted,
    Unknown,
}

/// Why a command has no output.
#[derive(Debug, PartialEq)]
pub struct ExecutionError {
    pub code: ExecutionErrorCode,
    pub message: String,
}

impl ExecutionError {
    pub fn new(code: ExecutionErrorCode, message: String) -> (r: ExecutionError)
        ensures
            r.code == code,
            r.message == message,
    {
        ExecutionError { code, message }
    }
}

/// What a command gives.
#[derive(Debug, PartialEq)]
pub struct ExecOutput {
    pub stdout: String,
    pub stderr: String,
    pub exit_code: i32,
}

/// How it came to an end, if it has: what the caller asks for comes before the time, and both
/// before the process's own end.
pub open spec fn ending(progress: ExecProgress) -> Option<ExecOutcome> {
    if progress.aborted {
        Some(ExecOutcome::Aborted)
    } else if progress.timed_out {
        Some(ExecOutcome::TimedOut)
    } else {
        match progress.ended {
            Some(end) => Some(ExecOutcome::Completed(end)),
            None => None,
        }
    }
}

/// What becomes of a command that runs.
#[derive(Debug, PartialEq)]
pub enum ExecStep {
    /// It runs on.
    Running(RunningExec),
    /// It has come to an end.
    Ending(EndingExec),
}

impl RunningExec {
    /// The time that it has.
    pub closed spec fn timeout(self) -> Option<u64> {
        self.timeout_secs
    }

    /// Looks at what has happened so far.
    pub fn progressed(self, progress: ExecProgress) -> (r: ExecStep)
        ensures
            match ending(progress) {
                None => r == ExecStep::Running(self),
                Some(outcome) => r matches ExecStep::Ending(end) && end.how() == outcome
                    && end.timeout() == self.timeout(),
            },
    {
        let outcome = if progress.aborted {
            ExecOutcome::Aborted
        } else if progress.timed_out {
            ExecOutcome::TimedOut
        } else {
            match progress.ended {
                Some(end) => ExecOutcome::Completed(end),
                None => {
                    return ExecStep::Running(self);
                },
            }
        };
        ExecStep::Ending(EndingExec { outcome, timeout_secs: self.timeout_secs })
    }
}

/// A stream's text; a reader that broke down has none.
pub open spec fn stream_text(text: Option<String>) -> Seq<char> {
    match text {
        Some(text) => text@,
        None => Seq::empty(),
    }
}

/// What is said of a command that took too long.
pub open spec fn timeout_text(timeout_secs: Option<u64>) -> Seq<char> {
    "command timed out after "@ + decimal(
        match timeout_secs {
            Some(secs) => secs as nat,
            None => 0,
        },
    ) + "s"@
}

/// `r` is what a command gives that came to an end in that way.
pub open spec fn gives(
    r: Result<ExecOutput, ExecutionError>,
    outcome: ExecOutcome,
    timeout_secs: Option<u64>,
    stdout: Option<String>,
    stderr: Option<String>,
) -> bool {
    match outcome {
        ExecOutcome::Completed(ProcessEnd::Exited { code }) => match r {
            Ok(output) => {
                &&& output.stdout@ == stream_text(stdout)
                &&& output.stderr@ == stream_text(stderr)
                &&& output.exit_code == match code {
                    Some(code) => code as int,
                    None => -1,
                }
            },
            Err(_) => false,
        },
        ExecOutcome::Completed(ProcessEnd::WaitFailed { message }) => match r {
            Ok(_) => false,
            Err(error) => error.code == ExecutionErrorCode::Unknown && error.message == message,
        },
        ExecOutcome::TimedOut => match r {
            Ok(_) => false,
            Err(error) => error.code == ExecutionErrorCode::Timeout && error.message@
                == timeout_text(timeout_secs),
        },
        ExecOutcome::Aborted => match r {
            Ok(_) => false,
            Err(error) => error.code == ExecutionErrorCode::Aborted && error.message@
                == "command aborted"@,
        },
    }
}

/// A process that did not come to its own end has to be killed.
pub open spec fn needs_kill(outcome: ExecOutcome) -> bool {
    match outcome {
        ExecOutcome::Completed(_) => false,
        ExecOutcome::TimedOut => true,
        ExecOutcome::Aborted => true,
    }
}

/// A stream's text; a reader that broke down has none.
fn text_or_empty(text: Option<String>) -> (r: String)
    ensures
        r@ == stream_text(text),
{
    match text {
        Some(text) => text,
        None => {
            let empty = String::new();
            assert(empty@ =~= Seq::<char>::empty());
            empty
        },
    }
}

impl EndingExec {
    /// How it came to an end.
    pub closed spec fn how(self) -> ExecOutcome {
        self.outcome
    }

    /// The time that it had.
    pub closed spec fn timeout(self) -> Option<u64> {
        self.timeout_secs
    }

    /// Whether the process is to be killed first: it is where it did not end by itself.
    pub fn must_kill(&self) -> (r: bool)
        ensures
            r == !(self.how() is Completed),
            r == needs_kill(self.how()),
    {
        match self.outcome {
            ExecOutcome::Completed(_) => false,
            _ => true,
        }
    }

    /// What the command gives, once its streams are drained.
    pub fn drained(self, stdout: Option<String>, stderr: Option<String>) -> (r: Result<
        ExecOutput,
        ExecutionError,
    >)
        ensures
            gives(r, self.how(), self.timeout(), stdout, stderr),
            match self.how() {
                ExecOutcome::Completed(ProcessEnd::Exited { code: Some(code) }) => r is Ok
                    && r->Ok_0.exit_code == code,
                ExecOutcome::Completed(ProcessEnd::Exited { code: None }) => r is Ok
                    && r->Ok_0.exit_code == -1,
                ExecOutcome::Completed(ProcessEnd::WaitFailed { .. }) => r is Err
                    && r->Err_0.code is Unknown,
                ExecOutcome::TimedOut => r is Err && r->Err_0.code is Timeout,
                ExecOutcome::Aborted => r is Err && r->Err_0.code is Aborted,
            },
            r is Ok && stdout is Some ==> r->Ok_0.stdout@ == stdout->0@,
            r is Ok && stderr is Some ==> r->Ok_0.stderr@ == stderr->0@,
    {
        match self.outcome {
            ExecOutcome::Completed(ProcessEnd::Exited { code }) => {
                let exit_code = match code {
                    Some(code) => code,
                    None => -1,
                };
                Ok(
                    ExecOutput {
                        stdout: text_or_empty(stdout),
                        stderr: text_or_empty(stderr),
                        exit_code,
                    },
                )
            },
            ExecOutcome::Completed(ProcessEnd::WaitFailed { message }) => Err(
                ExecutionError::new(ExecutionErrorCode::Unknown, message),
            ),
            ExecOutcome::TimedOut => {
                let secs = match self.timeout_secs {
                    Some(secs) => secs,
                    None => 0,
                };
                let mut message = String::new();
                message.push_str("command timed out after ");
                message.push_str(decimal_text(secs as u128).as_str());
                message.push_str("s");
                assert(message@ =~= timeout_text(self.timeout()));
                Err(ExecutionError::new(ExecutionErrorCode::Timeout, message))
            },
            ExecOutcome::Aborted => Err(
                ExecutionError::new(
                    ExecutionErrorCode::Aborted,
                    String::from_str("command aborted"),
                ),
            ),
        }
    }
}

// ---------------------------------------------------------------------------------------------
// Laws
// ---------------------------------------------------------------------------------------------

/// Where the first line of a text ends that begins with a line.
proof fn lemma_first_line(line: Seq<char>, rest: Seq<char>)
    requires
        forall|i: int| 0 <= i < line.len() ==> line[i] != '\n',
    ensures
        line_end(line.push('\n') + rest) == line.len(),
{
    let whole = line.push('\n') + rest;
    lemma_line_end(whole);
    let end = line_end(whole);
    assert(whole[line.len() as int] == '\n');
    if end < line.len() {
        assert(whole[end] == line[end]);
    }
}

/// Lines with newlines behind them, one run behind another.
proof fn lemma_drained_first(lines: Seq<Seq<char>>)
    requires
        lines.len() > 0,
    ensures
        drained(lines) == lines[0].push('\n') + drained(lines.skip(1)),
    decreases lines.len(),
{
    let front = lines.drop_last();
    if lines.len() == 1 {
        assert(front =~= Seq::<Seq<char>>::empty());
        assert(lines.skip(1) =~= Seq::<Seq<char>>::empty());
        assert(drained(front) == Seq::<char>::empty());
        assert(drained(lines.skip(1)) == Seq::<char>::empty());
        assert(drained(lines) =~= lines[0].push('\n') + drained(lines.skip(1)));
    } else {
        lemma_drained_first(front);
        assert(lines.skip(1).drop_last() =~= front.skip(1));
        assert(lines.skip(1).last() == lines.last());
        assert(drained(lines) =~= lines[0].push('\n') + drained(lines.skip(1)));
    }
}

/// Nothing that a command writes is lost or put out of order: the lines of the text that is kept
/// are the lines that came.
pub proof fn law_drained_lines_come_back(lines: Seq<Seq<char>>)
    requires
        forall|k: int, i: int|
            0 <= k < lines.len() && 0 <= i < lines[k].len() ==> #[trigger] lines[k][i] != '\n',
    ensures
        split_lines(drained(lines)) == lines,
    decreases lines.len(),
{
    if lines.len() == 0 {
        assert(split_lines(drained(lines)) =~= lines);
    } else {
        let rest = lines.skip(1);
        let whole = drained(lines);
        lemma_drained_first(lines);
        assert(forall|i: int| 0 <= i < lines[0].len() ==> lines[0][i] != '\n');
        lemma_first_line(lines[0], drained(rest));
        assert forall|k: int, i: int|
            0 <= k < rest.len() && 0 <= i < rest[k].len() implies #[trigger] rest[k][i] != '\n' by {
            assert(lines[k + 1][i] != '\n');
        }
        law_drained_lines_come_back(rest);
        let end = line_end(whole);
        assert(end < whole.len());
        assert(whole.take(end) =~= lines[0]);
        assert(whole.skip(end + 1) =~= drained(rest));
        assert(split_lines(whole) =~= lines);
    }
}

/// A command that was called off or took too long gives an error, whatever it has written and
/// however it ended meanwhile, and its process is killed; being called off comes before the time.
pub proof fn law_interruption_wins(
    progress: ExecProgress,
    outcome: ExecOutcome,
    r: Result<ExecOutput, ExecutionError>,
    timeout_secs: Option<u64>,
    stdout: Option<String>,
    stderr: Option<String>,
)
    requires
        progress.aborted || progress.timed_out,
        ending(progress) == Some(outcome),
        gives(r, outcome, timeout_secs, stdout, stderr),
    ensures
        r matches Err(error) && error.code == if progress.aborted {
            ExecutionErrorCode::Aborted
        } else {
            ExecutionErrorCode::Timeout
        },
        !(outcome is Completed),
{
}

/// A command gives output if and only if its process exited by itself before it was interrupted.
pub proof fn law_output_needs_an_exit(
    progress: ExecProgress,
    outcome: ExecOutcome,
    r: Result<ExecOutput, ExecutionError>,
    timeout_secs: Option<u64>,
    stdout: Option<String>,
    stderr: Option<String>,
)
    requires
        ending(progress) == Some(outcome),
        gives(r, outcome, timeout_secs, stdout, stderr),
    ensures
        r is Ok <==> !progress.aborted && !progress.timed_out && progress.ended.unwrap() is Exited,
{
}

/// Whatever a process exits with comes back, together with all that its streams have brought; a
/// stream whose reader broke down counts as empty.
pub proof fn law_exit_code_comes_back(
    progress: ExecProgress,
    outcome: ExecOutcome,
    r: Result<ExecOutput, ExecutionError>,
    timeout_secs: Option<u64>,
    stdout: Option<String>,
    stderr: Option<String>,
    code: i32,
)
    requires
        !progress.aborted,
        !progress.timed_out,
        progress.ended == Some(ProcessEnd::Exited { code: Some(code) }),
        ending(progress) == Some(outcome),
        gives(r, outcome, timeout_secs, stdout, stderr),
    ensures
        r is Ok,
        r->Ok_0.exit_code == code,
        stdout is Some ==> r->Ok_0.stdout@ == stdout->0@,
        stdout is None ==> r->Ok_0.stdout@.len() == 0,
        stderr is Some ==> r->Ok_0.stderr@ == stderr->0@,
        stderr is None ==> r->Ok_0.stderr@.len() == 0,
{
}

/// Two commands that exit with two codes give two outputs.
pub proof fn law_exit_codes_are_told_apart(
    a: Result<ExecOutput, ExecutionError>,
    b: Result<ExecOutput, ExecutionError>,
    a_code: i32,
    b_code: i32,
    timeout_secs: Option<u64>,
    stdout: Option<String>,
    stderr: Option<String>,
)
    requires
        a_code != b_code,
        gives(
            a,
            ExecOutcome::Completed(ProcessEnd::Exited { code: Some(a_code) }),
            timeout_secs,
            stdout,
            stderr,
        ),
        gives(
            b,
            ExecOutcome::Completed(ProcessEnd::Exited { code: Some(b_code) }),
            timeout_secs,
            stdout,
            stderr,
        ),
    ensures
        a != b,
        a->Ok_0.exit_code != b->Ok_0.exit_code,
{
}

/// A process that a signal killed gives what it has written, with -1 for its exit code.
pub proof fn law_killed_process_has_no_code(
    r: Result<ExecOutput, ExecutionError>,
    timeout_secs: Option<u64>,
    stdout: Option<String>,
    stderr: Option<String>,
)
    requires
        gives(
            r,
            ExecOutcome::Completed(ProcessEnd::Exited { code: None }),
            timeout_secs,
            stdout,
            stderr,
        ),
    ensures
        r is Ok,
        r->Ok_0.exit_code == -1,
        stdout is Some ==> r->Ok_0.stdout@ == stdout->0@,
        stdout is None ==> r->Ok_0.stdout@.len() == 0,
        stderr is Some ==> r->Ok_0.stderr@ == stderr->0@,
        stderr is None ==> r->Ok_0.stderr@.len() == 0,
{
}

/// A command that took too long says how long it had, in whole seconds; one that had no limit is
/// said to have had none of them.
pub proof fn law_timeout_says_how_long(
    r: Result<ExecOutput, ExecutionError>,
    secs: u64,
    stdout: Option<String>,
    stderr: Option<String>,
)
    requires
        gives(r, ExecOutcome::TimedOut, Some(secs), stdout, stderr) || (secs == 0 && gives(
            r,
            ExecOutcome::TimedOut,
            None,
            stdout,
            stderr,
        )),
    ensures
        r is Err,
        r->Err_0.code is Timeout,
        r->Err_0.message@ == "command timed out after "@ + decimal(secs as nat) + "s"@,
{
}

/// A command that was called off says so, and one of which the system could not say how it ended
/// gives the system's words.
pub proof fn law_broken_commands_say_why(
    aborted: Result<ExecOutput, ExecutionError>,
    lost: Result<ExecOutput, ExecutionError>,
    message: String,
    timeout_secs: Option<u64>,
    stdout: Option<String>,
    stderr: Option<String>,
)
    requires
        gives(aborted, ExecOutcome::Aborted, timeout_secs, stdout, stderr),
        gives(
            lost,
            ExecOutcome::Completed(ProcessEnd::WaitFailed { message }),
            timeout_secs,
            stdout,
            stderr,
        ),
    ensures
        aborted is Err,
        aborted->Err_0.code is Aborted,
        aborted->Err_0.message@ == "command aborted"@,
        lost is Err,
        lost->Err_0.code is Unknown,
        lost->Err_0.message == message,
{
}

/// A command comes to an end as soon as it is called off, its time is up or its process has ended,
/// and not before. Being called off counts first, then the time, then how the process ended.
pub proof fn law_first_cause_ends_a_command(progress: ExecProgress)
    ensures
        ending(progress) is None <==> !progress.aborted && !progress.timed_out
            && progress.ended is None,
        progress.aborted ==> ending(progress) == Some(ExecOutcome::Aborted),
        !progress.aborted && progress.timed_out ==> ending(progress) == Some(
            ExecOutcome::TimedOut,
        ),
        !progress.aborted && !progress.timed_out && progress.ended is Some ==> ending(progress)
            == Some(ExecOutcome::Completed(progress.ended->0)),
{
}

/// A command runs as `sh -c command`, where the options say or else where the environment stands,
/// with the variables and the time that the options give.
pub proof fn law_shell_runs_the_command(
    plan: ExecPlan,
    command: Seq<char>,
    standing: Seq<char>,
    options: ExecOptions,
)
    requires
        runs(plan, command, standing, options),
    ensures
        plan.program@ == "sh"@,
        text_views(plan.args@) == seq!["-c"@, command],
        options.cwd is Some ==> plan.cwd@ == options.cwd->0@,
        options.cwd is None ==> plan.cwd@ == standing,
        options.env is Some ==> plan.env@ == options.env->0@,
        options.env is None ==> plan.env@.len() == 0,
        plan.timeout_secs == options.timeout_secs,
{
    assert(text_views(plan.args@) =~= seq!["-c"@, command]);
}

/// A line that a stream brings stands in its text as it came, with one newline behind it.
pub proof fn law_line_is_kept_whole(lines: Seq<Seq<char>>, line: Seq<char>)
    ensures
        drained(Seq::empty()).len() == 0,
        drained(lines.push(line)) == drained(lines) + line + seq!['\n'],
{
    assert(lines.push(line).drop_last() =~= lines);
    assert(drained(lines.push(line)) =~= drained(lines) + line + seq!['\n']);
}

/// A command that the system starts runs with the time that it was given; one that the system cannot
/// start gives the system's words.
pub proof fn law_failed_start_is_told(
    r: Result<RunningExec, ExecutionError>,
    starting: StartingExec,
    answer: Result<(), String>,
)
    requires
        started(r, starting, answer),
    ensures
        r is Ok <==> answer is Ok,
        r is Ok ==> r->Ok_0.timeout() == starting.timeout(),
        r is Err ==> r->Err_0.code is SpawnFailed,
        r is Err ==> r->Err_0.message == answer->Err_0,
{
}

/// Just the commands that are broken off are killed: those that were called off and those whose time
/// was up.
pub proof fn law_what_is_broken_off_is_killed(progress: ExecProgress)
    requires
        ending(progress) is Some,
    ensures
        needs_kill(ending(progress)->0) <==> progress.aborted || progress.timed_out,
{
}

} // verus!
