use ide_ui::codegen::{GeneratedCode, TargetLanguage};
use ide_ui::execution::{
    runtime_command, CodeExecutor, ExecAction, ExecStep, ExecutionResult, ProcessOutput, StepOutcome,
};
use std::time::Duration;

fn code(language: TargetLanguage) -> GeneratedCode {
    GeneratedCode {
        language,
        code: "print(1)".to_string(),
        entry_point: None,
        imports: Vec::new(),
        warnings: Vec::new(),
    }
}

fn exited(success: bool, stdout: &str, stderr: &str) -> StepOutcome {
    StepOutcome::Exited(ProcessOutput {
        exit_code: Some(if success { 0 } else { 2 }),
        stdout: stdout.to_string(),
        stderr: stderr.to_string(),
        success,
    })
}

fn finished(a: ExecAction) -> ExecutionResult {
    match a {
        ExecAction::Finish(r) => r,
        ExecAction::Perform(s) => panic!("expected the run to end, got {:?}", s),
    }
}

fn next_step(a: ExecAction) -> ExecStep {
    match a {
        ExecAction::Perform(s) => s,
        ExecAction::Finish(r) => panic!("expected another step, got {:?}", r),
    }
}

#[test]
fn result_constructors() {
    let ok = ExecutionResult::success("hi\n".to_string(), Duration::from_millis(5));
    assert_eq!(ok.exit_code, Some(0));
    assert_eq!(ok.stdout, "hi\n");
    assert_eq!(ok.stderr, "");
    assert_eq!(ok.duration, Duration::from_millis(5));
    assert!(ok.success);
    assert_eq!(ok.error, None);
    assert!(!ok.is_empty());

    let bad = ExecutionResult::failure("trace".to_string(), Some("boom".to_string()));
    assert_eq!(bad.exit_code, Some(1));
    assert_eq!(bad.stdout, "");
    assert_eq!(bad.stderr, "trace");
    assert_eq!(bad.duration, Duration::ZERO);
    assert!(!bad.success);
    assert_eq!(bad.error.as_deref(), Some("boom"));

    let t = ExecutionResult::timeout();
    assert_eq!(t.exit_code, None);
    assert_eq!(t.stderr, "Execution timed out");
    assert_eq!(t.error.as_deref(), Some("Execution exceeded time limit"));
    assert_eq!(t.duration, Duration::ZERO);
    assert!(!t.success);

    assert!(ExecutionResult::failure(String::new(), None).is_empty());
}

#[test]
fn process_output_becomes_result() {
    let r = ExecutionResult::from_output(
        ProcessOutput { exit_code: Some(3), stdout: "o".to_string(), stderr: "e".to_string(), success: false },
        Duration::from_secs(2),
    );
    assert_eq!(r.exit_code, Some(3));
    assert_eq!(r.stdout, "o");
    assert_eq!(r.stderr, "e");
    assert_eq!(r.duration, Duration::from_secs(2));
    assert_eq!(r.error.as_deref(), Some("Execution failed"));
    let r = ExecutionResult::from_output(
        ProcessOutput { exit_code: Some(0), stdout: String::new(), stderr: String::new(), success: true },
        Duration::from_secs(1),
    );
    assert!(r.success);
    assert_eq!(r.error, None);
}

#[test]
fn runtimes() {
    assert_eq!(runtime_command(TargetLanguage::Python), Some("python3"));
    assert_eq!(runtime_command(TargetLanguage::JavaScript), Some("node"));
    assert_eq!(runtime_command(TargetLanguage::Rust), Some("cargo"));
    assert_eq!(runtime_command(TargetLanguage::TypeScript), None);
    assert_eq!(runtime_command(TargetLanguage::Cpp), None);
}

#[test]
fn executors_start_by_language() {
    let ex = CodeExecutor::new(Duration::from_secs(5));
    assert_eq!(ex.time_limit(), Duration::from_secs(5));
    assert_eq!(next_step(ex.execute(&code(TargetLanguage::Python))), ExecStep::WritePythonScript);
    assert_eq!(next_step(ex.execute(&code(TargetLanguage::JavaScript))), ExecStep::WriteNodeScript);
    let ex = CodeExecutor::default();
    assert_eq!(ex.time_limit(), Duration::from_secs(30));
    assert_eq!(next_step(ex.execute(&code(TargetLanguage::Rust))), ExecStep::CreateProject);
}

#[test]
fn languages_without_a_runner_fail_at_once() {
    let ex = CodeExecutor::default();
    let r = finished(ex.execute(&code(TargetLanguage::TypeScript)));
    assert!(!r.success);
    assert_eq!(r.exit_code, Some(1));
    assert_eq!(r.error.as_deref(), Some("Running TypeScript code is not supported"));
    let r = finished(ex.execute(&code(TargetLanguage::Cpp)));
    assert_eq!(r.error.as_deref(), Some("Running C++ code is not supported"));
}

#[test]
fn runs_past_the_limit_time_out() {
    for step in [ExecStep::RunPython, ExecStep::RunNode, ExecStep::Build, ExecStep::RunBinary] {
        let r = finished(step.advance(StepOutcome::TimedOut, Duration::from_secs(31)));
        assert!(!r.success);
        assert_eq!(r.exit_code, None);
        assert_eq!(r.stdout, "");
        assert_eq!(r.stderr, "Execution timed out");
        assert_eq!(r.error.as_deref(), Some("Execution exceeded time limit"));
        assert_eq!(r.duration, Duration::ZERO);
    }
}

#[test]
fn python_run_succeeds() {
    let s = ExecStep::WritePythonScript;
    let s = next_step(s.advance(StepOutcome::Completed, Duration::ZERO));
    assert_eq!(s, ExecStep::RunPython);
    let r = finished(s.advance(exited(true, "1\n", ""), Duration::from_millis(40)));
    assert!(r.success);
    assert_eq!(r.stdout, "1\n");
    assert_eq!(r.exit_code, Some(0));
    assert_eq!(r.duration, Duration::from_millis(40));
    assert_eq!(r.error, None);
}

#[test]
fn script_failures_carry_their_messages() {
    let r = finished(ExecStep::WritePythonScript.advance(StepOutcome::Failed("disk full".to_string()), Duration::ZERO));
    assert_eq!(r.error.as_deref(), Some("Failed to write temp file: disk full"));
    assert_eq!(r.exit_code, Some(1));
    assert_eq!(r.stderr, "");
    let r = finished(ExecStep::RunPython.advance(StepOutcome::Failed("not found".to_string()), Duration::ZERO));
    assert_eq!(r.error.as_deref(), Some("Failed to execute Python: not found. Make sure Python 3 is installed."));
    let r = finished(ExecStep::RunNode.advance(StepOutcome::Failed("not found".to_string()), Duration::ZERO));
    assert_eq!(r.error.as_deref(), Some("Failed to execute Node.js: not found. Make sure Node.js is installed."));
    let r = finished(ExecStep::RunNode.advance(exited(false, "", "TypeError"), Duration::from_secs(1)));
    assert_eq!(r.error.as_deref(), Some("Execution failed"));
    assert_eq!(r.stderr, "TypeError");
    assert_eq!(r.exit_code, Some(2));
}

#[test]
fn rust_run_walks_every_step() {
    let mut s = ExecStep::CreateProject;
    let expected = [ExecStep::WriteManifest, ExecStep::CreateSourceDir, ExecStep::WriteMain, ExecStep::Build];
    for e in expected {
        s = next_step(s.advance(StepOutcome::Completed, Duration::ZERO));
        assert_eq!(s, e);
    }
    s = next_step(s.advance(exited(true, "", "Compiling"), Duration::ZERO));
    assert_eq!(s, ExecStep::RunBinary);
    let r = finished(s.advance(exited(true, "hello", ""), Duration::from_secs(3)));
    assert!(r.success);
    assert_eq!(r.stdout, "hello");
}

#[test]
fn rust_failures_carry_their_messages() {
    let cases = [
        (ExecStep::CreateProject, "Failed to create temp directory: denied"),
        (ExecStep::WriteManifest, "Failed to write Cargo.toml: denied"),
        (ExecStep::CreateSourceDir, "Failed to create src directory: denied"),
        (ExecStep::WriteMain, "Failed to write main.rs: denied"),
        (ExecStep::Build, "Failed to run cargo: denied. Make sure Rust is installed."),
        (ExecStep::RunBinary, "Failed to run binary: denied"),
    ];
    for (step, message) in cases {
        let r = finished(step.advance(StepOutcome::Failed("denied".to_string()), Duration::ZERO));
        assert_eq!(r.error.as_deref(), Some(message));
        assert!(!r.success);
    }
    let r = finished(ExecStep::Build.advance(exited(false, "", "error[E0425]"), Duration::ZERO));
    assert_eq!(r.error.as_deref(), Some("Rust compilation failed"));
    assert_eq!(r.stderr, "error[E0425]");
    assert_eq!(r.exit_code, Some(1));
}

#[test]
fn runs_always_end() {
    for lang in [TargetLanguage::Python, TargetLanguage::JavaScript, TargetLanguage::Rust] {
        let mut s = next_step(CodeExecutor::default().execute(&code(lang)));
        let mut steps = 0;
        while !s.is_program_run() {
            s = s.next();
            steps += 1;
            assert!(steps <= 5);
        }
    }
}
