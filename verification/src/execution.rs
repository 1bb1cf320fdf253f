//! Running generated programs.
//!
//! A run is a short sequence of file-system and process steps. The library
//! decides which step comes next and what the run's result is; the caller
//! performs each step and reports its outcome (see [`ExecStep::advance`]).

use crate::codegen::{GeneratedCode, TargetLanguage};
use crate::types::opt_text;
use core::time::Duration;
use vstd::prelude::*;

verus! {

/// The duration that `Duration::from_secs` builds from `secs` seconds.
pub uninterp spec fn duration_of_secs(secs: u64) -> Duration;

/// Calls `Duration::from_secs`, which makes a duration of `secs` whole
/// seconds; the contract only names the result `duration_of_secs(secs)`.
#[verifier::external_body]
fn seconds(secs: u64) -> (d: Duration)
    ensures
        d == duration_of_secs(secs),
{
    Duration::from_secs(secs)
}

/// What a finished process reported.
#[derive(Debug)]
pub struct ProcessOutput {
    /// Exit status code, if the process exited with one
    pub exit_code: Option<i32>,
    /// Captured standard output
    pub stdout: String,
    /// Captured standard error
    pub stderr: String,
    /// Whether the process exited successfully
    pub success: bool,
}

/// Execution result.
#[derive(Debug)]
pub struct ExecutionResult {
    /// Exit code
    pub exit_code: Option<i32>,
    /// Standard output
    pub stdout: String,
    /// Standard error
    pub stderr: String,
    /// Execution time
    pub duration: Duration,
    /// Whether execution was successful
    pub success: bool,
    /// Error message if execution failed
    pub error: Option<String>,
}

impl Clone for ExecutionResult {
    fn clone(&self) -> (r: Self)
        ensures
            r == *self,
    {
        ExecutionResult {
            exit_code: self.exit_code,
            stdout: self.stdout.clone(),
            stderr: self.stderr.clone(),
            duration: self.duration,
            success: self.success,
            error: match &self.error {
                Some(e) => Some(e.clone()),
                None => None,
            },
        }
    }
}

/// `r` is a failed run with the given standard error and error message,
/// exit code 1, no output and zero duration.
pub open spec fn is_failure(r: ExecutionResult, stderr: Seq<char>, message: Seq<char>) -> bool {
    &&& r.exit_code == Some(1i32)
    &&& r.stdout@.len() == 0
    &&& r.stderr@ == stderr
    &&& r.duration == duration_of_secs(0)
    &&& !r.success
    &&& opt_text(r.error) == Some(message)
}

/// `r` reports the process output `out` after `duration`: an unsuccessful
/// exit carries the message "Execution failed".
pub open spec fn reports(r: ExecutionResult, out: ProcessOutput, duration: Duration) -> bool {
    &&& r.exit_code == out.exit_code
    &&& r.stdout@ == out.stdout@
    &&& r.stderr@ == out.stderr@
    &&& r.duration == duration
    &&& r.success == out.success
    &&& opt_text(r.error) == (if out.success {
        None
    } else {
        Some("Execution failed"@)
    })
}

impl ExecutionResult {
    /// A successful run with the given output.
    pub fn success(stdout: String, duration: Duration) -> (r: Self)
        ensures
            r.exit_code == Some(0i32),
            r.stdout == stdout,
            r.stderr@.len() == 0,
            r.duration == duration,
            r.success,
            r.error.is_none(),
    {
        ExecutionResult {
            exit_code: Some(0),
            stdout,
            stderr: String::new(),
            duration,
            success: true,
            error: None,
        }
    }

    /// A failed run.
    pub fn failure(stderr: String, error: Option<String>) -> (r: Self)
        ensures
            r.exit_code == Some(1i32),
            r.stdout@.len() == 0,
            r.stderr == stderr,
            r.duration == duration_of_secs(0),
            !r.success,
            r.error == error,
    {
        ExecutionResult {
            exit_code: Some(1),
            stdout: String::new(),
            stderr,
            duration: seconds(0),
            success: false,
            error,
        }
    }

    /// A run that exceeded its time limit.
    pub fn timeout() -> (r: Self)
        ensures
            r.exit_code.is_none(),
            r.stdout@.len() == 0,
            r.stderr@ == "Execution timed out"@,
            r.duration == duration_of_secs(0),
            !r.success,
            opt_text(r.error) == Some("Execution exceeded time limit"@),
    {
        ExecutionResult {
            exit_code: None,
            stdout: String::new(),
            stderr: String::from_str("Execution timed out"),
            duration: seconds(0),
            success: false,
            error: Some(String::from_str("Execution exceeded time limit")),
        }
    }

    /// Whether the run produced neither output nor error output.
    pub fn is_empty(&self) -> (r: bool)
        ensures
            r == (self.stdout@.len() == 0 && self.stderr@.len() == 0),
    {
        self.stdout.as_str().is_empty() && self.stderr.as_str().is_empty()
    }

    /// The result of a run whose process reported `out` after `duration`.
    pub fn from_output(out: ProcessOutput, duration: Duration) -> (r: Self)
        ensures
            reports(r, out, duration),
    {
        let success = out.success;
        ExecutionResult {
            exit_code: out.exit_code,
            stdout: out.stdout,
            stderr: out.stderr,
            duration,
            success,
            error: if success {
                None
            } else {
                Some(String::from_str("Execution failed"))
            },
        }
    }
}

/// Code executor.
pub struct CodeExecutor {
    /// Timeout for execution
    timeout: Duration,
}

impl CodeExecutor {
    /// The time limit the executor was made with.
    pub closed spec fn limit(&self) -> Duration {
        self.timeout
    }

    pub fn new(timeout: Duration) -> (r: Self)
        ensures
            r.limit() == timeout,
    {
        CodeExecutor { timeout }
    }

    /// The time limit the executor was made with; a step that runs longer
    /// ends the run as timed out (see [`StepOutcome::TimedOut`]).
    pub fn time_limit(&self) -> (r: Duration)
        ensures
            r == self.limit(),
    {
        self.timeout
    }

    /// Start running `code`: the first step to perform, or, for a language
    /// that cannot be run, the failed result.
    pub fn execute(&self, code: &GeneratedCode) -> (a: ExecAction)
        ensures
            match first_step(code.language) {
                Some(s) => a == ExecAction::Perform(s),
                None => a matches ExecAction::Finish(r) && is_failure(
                    r,
                    Seq::empty(),
                    unsupported_text(code.language),
                ),
            },
    {
        match code.language {
            TargetLanguage::Python => ExecAction::Perform(ExecStep::WritePythonScript),
            TargetLanguage::JavaScript => ExecAction::Perform(ExecStep::WriteNodeScript),
            TargetLanguage::Rust => ExecAction::Perform(ExecStep::CreateProject),
            TargetLanguage::TypeScript => ExecAction::Finish(
                ExecutionResult::failure(
                    String::new(),
                    Some(String::from_str("Running TypeScript code is not supported")),
                ),
            ),
            TargetLanguage::Cpp => ExecAction::Finish(
                ExecutionResult::failure(String::new(), Some(String::from_str("Running C++ code is not supported"))),
            ),
        }
    }
}

/// The error message of a run of code in a language that cannot be run.
pub open spec fn unsupported_text(language: TargetLanguage) -> Seq<char> {
    match language {
        TargetLanguage::TypeScript => "Running TypeScript code is not supported"@,
        TargetLanguage::Cpp => "Running C++ code is not supported"@,
        _ => Seq::empty(),
    }
}

impl Default for CodeExecutor {
    /// An executor with a limit of thirty seconds.
    fn default() -> (r: Self)
        ensures
            r.limit() == duration_of_secs(30),
    {
        CodeExecutor { timeout: seconds(30) }
    }
}

/// The program that runs (or builds) code of a language, for the languages
/// that can be run.
pub fn runtime_command(language: TargetLanguage) -> (r: Option<&'static str>)
    ensures
        match language {
            TargetLanguage::Python => r matches Some(c) && c@ == "python3"@,
            TargetLanguage::JavaScript => r matches Some(c) && c@ == "node"@,
            TargetLanguage::Rust => r matches Some(c) && c@ == "cargo"@,
            _ => r is None,
        },
{
    match language {
        TargetLanguage::Python => Some("python3"),
        TargetLanguage::JavaScript => Some("node"),
        TargetLanguage::Rust => Some("cargo"),
        _ => None,
    }
}

/// One step of a run.
#[derive(Debug, Clone, Copy, PartialEq, Eq, Structural)]
pub enum ExecStep {
    /// Write the code to a temporary Python script
    WritePythonScript,
    /// Run `python3` on the script
    RunPython,
    /// Write the code to a temporary JavaScript file
    WriteNodeScript,
    /// Run `node` on the script
    RunNode,
    /// Create the temporary project directory afresh
    CreateProject,
    /// Write the project manifest
    WriteManifest,
    /// Create the project's source directory
    CreateSourceDir,
    /// Write the code as the project's main source file
    WriteMain,
    /// Build the project in release mode
    Build,
    /// Run the built binary
    RunBinary,
}

/// What the caller observed when it performed a step.
#[derive(Debug)]
pub enum StepOutcome {
    /// A file or directory step succeeded
    Completed,
    /// A process ran and exited
    Exited(ProcessOutput),
    /// The step failed with the given system error text
    Failed(String),
    /// The step's process ran longer than the executor's time limit and
    /// was stopped
    TimedOut,
}

/// What to do after a step.
#[derive(Debug)]
pub enum ExecAction {
    /// Perform this step next
    Perform(ExecStep),
    /// The run is over, with this result
    Finish(ExecutionResult),
}

/// The step a run of `language` starts with, for the languages that can
/// be run.
pub open spec fn first_step(language: TargetLanguage) -> Option<ExecStep> {
    match language {
        TargetLanguage::Python => Some(ExecStep::WritePythonScript),
        TargetLanguage::JavaScript => Some(ExecStep::WriteNodeScript),
        TargetLanguage::Rust => Some(ExecStep::CreateProject),
        _ => None,
    }
}

/// The step that follows a successful `step`; a step that runs the
/// program has no successor and maps to itself.
pub open spec fn following(step: ExecStep) -> ExecStep {
    match step {
        ExecStep::WritePythonScript => ExecStep::RunPython,
        ExecStep::WriteNodeScript => ExecStep::RunNode,
        ExecStep::CreateProject => ExecStep::WriteManifest,
        ExecStep::WriteManifest => ExecStep::CreateSourceDir,
        ExecStep::CreateSourceDir => ExecStep::WriteMain,
        ExecStep::WriteMain => ExecStep::Build,
        ExecStep::Build => ExecStep::RunBinary,
        _ => step,
    }
}

/// Whether `step` runs the program itself (its exit ends the run).
pub open spec fn runs_program(step: ExecStep) -> bool {
    step == ExecStep::RunPython || step == ExecStep::RunNode || step == ExecStep::RunBinary
}

/// The error message of a run whose `step` failed with system error `err`.
pub open spec fn step_failure_text(step: ExecStep, err: Seq<char>) -> Seq<char> {
    match step {
        ExecStep::WritePythonScript => "Failed to write temp file: "@ + err,
        ExecStep::WriteNodeScript => "Failed to write temp file: "@ + err,
        ExecStep::RunPython => "Failed to execute Python: "@ + err + ". Make sure Python 3 is installed."@,
        ExecStep::RunNode => "Failed to execute Node.js: "@ + err + ". Make sure Node.js is installed."@,
        ExecStep::CreateProject => "Failed to create temp directory: "@ + err,
        ExecStep::WriteManifest => "Failed to write Cargo.toml: "@ + err,
        ExecStep::CreateSourceDir => "Failed to create src directory: "@ + err,
        ExecStep::WriteMain => "Failed to write main.rs: "@ + err,
        ExecStep::Build => "Failed to run cargo: "@ + err + ". Make sure Rust is installed."@,
        ExecStep::RunBinary => "Failed to run binary: "@ + err,
    }
}

fn failure_text(step: ExecStep, err: &str) -> (r: String)
    ensures
        r@ == step_failure_text(step, err@),
{
    match step {
        ExecStep::WritePythonScript => String::from_str("Failed to write temp file: ").concat(err),
        ExecStep::WriteNodeScript => String::from_str("Failed to write temp file: ").concat(err),
        ExecStep::RunPython => String::from_str("Failed to execute Python: ").concat(err).concat(
            ". Make sure Python 3 is installed.",
        ),
        ExecStep::RunNode => String::from_str("Failed to execute Node.js: ").concat(err).concat(
            ". Make sure Node.js is installed.",
        ),
        ExecStep::CreateProject => String::from_str("Failed to create temp directory: ").concat(err),
        ExecStep::WriteManifest => String::from_str("Failed to write Cargo.toml: ").concat(err),
        ExecStep::CreateSourceDir => String::from_str("Failed to create src directory: ").concat(err),
        ExecStep::WriteMain => String::from_str("Failed to write main.rs: ").concat(err),
        ExecStep::Build => String::from_str("Failed to run cargo: ").concat(err).concat(
            ". Make sure Rust is installed.",
        ),
        ExecStep::RunBinary => String::from_str("Failed to run binary: ").concat(err),
    }
}

impl ExecStep {
    /// The action after this step had `outcome`; `elapsed` is the time since
    /// the run started, which a finished run reports as its duration.
    ///
    /// A failed step ends the run with its message; a step that ran past
    /// the time limit ends it as timed out; a build that exits
    /// unsuccessfully ends it with the compiler's error output; the exit of
    /// the program ends it with what the program reported; any other
    /// success moves on to the following step.
    pub fn advance(self, outcome: StepOutcome, elapsed: Duration) -> (a: ExecAction)
        ensures
            match outcome {
                StepOutcome::Failed(e) => a matches ExecAction::Finish(r) && is_failure(
                    r,
                    Seq::empty(),
                    step_failure_text(self, e@),
                ),
                StepOutcome::Exited(out) => if runs_program(self) {
                    a matches ExecAction::Finish(r) && reports(r, out, elapsed)
                } else if self == ExecStep::Build && !out.success {
                    a matches ExecAction::Finish(r) && is_failure(
                        r,
                        out.stderr@,
                        "Rust compilation failed"@,
                    )
                } else {
                    a == ExecAction::Perform(following(self))
                },
                StepOutcome::TimedOut => a matches ExecAction::Finish(r) && r.exit_code.is_none()
                    && r.stdout@.len() == 0 && r.stderr@ == "Execution timed out"@ && r.duration
                    == duration_of_secs(0) && !r.success && opt_text(r.error) == Some(
                    "Execution exceeded time limit"@,
                ),
                StepOutcome::Completed => if runs_program(self) {
                    a matches ExecAction::Finish(r) && r.exit_code.is_none() && r.stdout@.len() == 0
                        && r.stderr@.len() == 0 && r.duration == elapsed && !r.success && opt_text(
                        r.error,
                    ) == Some("Execution failed"@)
                } else {
                    a == ExecAction::Perform(following(self))
                },
            },
    {
        match outcome {
            StepOutcome::Failed(e) => {
                let msg = failure_text(self, e.as_str());
                ExecAction::Finish(ExecutionResult::failure(String::new(), Some(msg)))
            },
            StepOutcome::Exited(out) => {
                if self.is_program_run() {
                    ExecAction::Finish(ExecutionResult::from_output(out, elapsed))
                } else if self == ExecStep::Build && !out.success {
                    ExecAction::Finish(
                        ExecutionResult::failure(
                            out.stderr,
                            Some(String::from_str("Rust compilation failed")),
                        ),
                    )
                } else {
                    ExecAction::Perform(self.next())
                }
            },
            StepOutcome::TimedOut => ExecAction::Finish(ExecutionResult::timeout()),
            StepOutcome::Completed => {
                if self.is_program_run() {
                    let silent = ProcessOutput {
                        exit_code: None,
                        stdout: String::new(),
                        stderr: String::new(),
                        success: false,
                    };
                    ExecAction::Finish(ExecutionResult::from_output(silent, elapsed))
                } else {
                    ExecAction::Perform(self.next())
                }
            },
        }
    }

    /// Whether this step runs the program itself.
    pub fn is_program_run(&self) -> (r: bool)
        ensures
            r == runs_program(*self),
    {
        match self {
            ExecStep::RunPython | ExecStep::RunNode | ExecStep::RunBinary => true,
            _ => false,
        }
    }

    /// The step that follows this one when it succeeds.
    pub fn next(&self) -> (r: ExecStep)
        ensures
            r == following(*self),
    {
        match self {
            ExecStep::WritePythonScript => ExecStep::RunPython,
            ExecStep::WriteNodeScript => ExecStep::RunNode,
            ExecStep::CreateProject => ExecStep::WriteManifest,
            ExecStep::WriteManifest => ExecStep::CreateSourceDir,
            ExecStep::CreateSourceDir => ExecStep::WriteMain,
            ExecStep::WriteMain => ExecStep::Build,
            ExecStep::Build => ExecStep::RunBinary,
            _ => *self,
        }
    }
}

/// How many more steps succeed `step` before the program runs.
pub open spec fn steps_left(step: ExecStep) -> nat {
    match step {
        ExecStep::WritePythonScript => 1,
        ExecStep::RunPython => 0,
        ExecStep::WriteNodeScript => 1,
        ExecStep::RunNode => 0,
        ExecStep::CreateProject => 5,
        ExecStep::WriteManifest => 4,
        ExecStep::CreateSourceDir => 3,
        ExecStep::WriteMain => 2,
        ExecStep::Build => 1,
        ExecStep::RunBinary => 0,
    }
}

/// Each run uses its own language's tools: a Python run writes its script
/// and runs it with `python3`, a JavaScript run writes its script and runs
/// it with `node`, and a Rust run creates its project, writes the manifest,
/// the source directory and the main file, builds with `cargo` and runs the
/// built binary; TypeScript and C++ runs have no steps. So the one step of
/// a run that runs a program is the step of the run's own language.
pub proof fn lemma_runs_use_their_language(language: TargetLanguage)
    ensures
        language is Python ==> first_step(language) == Some(ExecStep::WritePythonScript) && following(
            ExecStep::WritePythonScript,
        ) == ExecStep::RunPython,
        language is JavaScript ==> first_step(language) == Some(ExecStep::WriteNodeScript) && following(
            ExecStep::WriteNodeScript,
        ) == ExecStep::RunNode,
        language is Rust ==> {
            &&& first_step(language) == Some(ExecStep::CreateProject)
            &&& following(ExecStep::CreateProject) == ExecStep::WriteManifest
            &&& following(ExecStep::WriteManifest) == ExecStep::CreateSourceDir
            &&& following(ExecStep::CreateSourceDir) == ExecStep::WriteMain
            &&& following(ExecStep::WriteMain) == ExecStep::Build
            &&& following(ExecStep::Build) == ExecStep::RunBinary
        },
        first_step(language) is None <==> (language is TypeScript || language is Cpp),
        runs_program(ExecStep::RunPython) && runs_program(ExecStep::RunNode) && runs_program(ExecStep::RunBinary),
        !runs_program(ExecStep::WritePythonScript) && !runs_program(ExecStep::WriteNodeScript) && !runs_program(
            ExecStep::Build,
        ),
{
}

/// Every run ends: each successful step that does not run the program
/// brings the run one step closer to running it, a run starts at most
/// five steps away from it, and the program's exit ends the run.
pub proof fn lemma_run_ends(language: TargetLanguage, step: ExecStep)
    ensures
        first_step(language) matches Some(s) ==> steps_left(s) <= 5,
        runs_program(step) <==> steps_left(step) == 0,
        !runs_program(step) ==> steps_left(following(step)) + 1 == steps_left(step),
{
}

} // verus!
