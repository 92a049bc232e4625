use putput::command::CommandSpec;
use putput::config::{resolve_loaded, Config};
use putput::dispatch::make_jobs;
use putput::text::{tokenize, trim_end};
use putput::worker::{outcome_result, plan, CommandUpdate, ProcessOutcome, WorkerStep};

fn exited(success: bool, status: &str, stdout: &[u8], stderr: &[u8]) -> ProcessOutcome {
    ProcessOutcome::Exited {
        success,
        status: status.to_string(),
        stdout: stdout.to_vec(),
        stderr: stderr.to_vec(),
    }
}

#[test]
fn tokenize_splits_on_whitespace_runs() {
    let toks = tokenize("  wc   -w \t-l\n");
    let toks: Vec<&str> = toks.iter().map(|t| t.as_str()).collect();
    assert_eq!(toks, vec!["wc", "-w", "-l"]);
}

#[test]
fn tokenize_empty_and_blank() {
    assert_eq!(tokenize("").len(), 0);
    assert_eq!(tokenize(" \t \n ").len(), 0);
}

#[test]
fn tokenize_unicode_whitespace() {
    let toks = tokenize("a\u{3000}b\u{2003}c");
    let toks: Vec<&str> = toks.iter().map(|t| t.as_str()).collect();
    assert_eq!(toks, vec!["a", "b", "c"]);
}

#[test]
fn trim_end_removes_trailing_newline() {
    assert_eq!(trim_end("hello\n"), "hello");
    assert_eq!(trim_end("hello \t\r\n"), "hello");
    assert_eq!(trim_end("  a b "), "  a b");
    assert_eq!(trim_end(""), "");
    assert_eq!(trim_end(" \n "), "");
}

#[test]
fn parse_program_and_args() {
    let spec = CommandSpec::parse("wc -w");
    assert_eq!(spec.raw, "wc -w");
    assert_eq!(spec.program, "wc");
    assert_eq!(spec.args, vec!["-w".to_string()]);
    assert!(spec.runnable());

    let spec = CommandSpec::parse("cat");
    assert_eq!(spec.program, "cat");
    assert!(spec.args.is_empty());
    assert!(spec.runnable());
}

#[test]
fn parse_whitespace_only_is_not_runnable() {
    let spec = CommandSpec::parse("   \t ");
    assert_eq!(spec.raw, "   \t ");
    assert_eq!(spec.program, "");
    assert!(spec.args.is_empty());
    assert!(!spec.runnable());
}

#[test]
fn whitespace_only_spec_short_circuits_without_spawning() {
    let spec = CommandSpec::parse(" \t ");
    match plan(&spec) {
        WorkerStep::Finished(r) => {
            assert_eq!(r.name, " \t ");
            assert_eq!(r.text, "Error: Empty command");
        }
        WorkerStep::RunProcess => panic!("a blank spec must not reach the process step"),
    }
}

#[test]
fn runnable_spec_proceeds_to_the_process() {
    let spec = CommandSpec::parse("cat");
    assert!(matches!(plan(&spec), WorkerStep::RunProcess));
}

#[test]
fn cat_output_has_trailing_newline_trimmed() {
    let spec = CommandSpec::parse("cat");
    let r = outcome_result(&spec, exited(true, "exit status: 0", b"hello\n", b""));
    assert_eq!(r.name, "cat");
    assert_eq!(r.text, "hello");
}

#[test]
fn wc_w_counts_three_words() {
    let spec = CommandSpec::parse("wc -w");
    assert_eq!(spec.program, "wc");
    assert_eq!(spec.args, vec!["-w".to_string()]);
    let r = outcome_result(&spec, exited(true, "exit status: 0", b"3\n", b""));
    assert_eq!(r.name, "wc -w");
    assert_eq!(r.text, "3");
}

#[test]
fn spawn_failure_names_the_raw_command() {
    let spec = CommandSpec::parse("doesnotexist123");
    let r = outcome_result(
        &spec,
        ProcessOutcome::SpawnFailed {
            cause: "No such file or directory (os error 2)".to_string(),
        },
    );
    assert_eq!(r.name, "doesnotexist123");
    assert_eq!(
        r.text,
        "Failed to execute 'doesnotexist123': No such file or directory (os error 2)"
    );
    assert!(r.text.contains("Failed to execute"));
    assert!(r.text.contains("doesnotexist123"));
}

#[test]
fn failed_exit_reports_status_and_stderr_never_stdout() {
    let spec = CommandSpec::parse("false");
    let r = outcome_result(
        &spec,
        exited(false, "exit status: 1", b"raw stdout that must not appear", b""),
    );
    assert_eq!(r.name, "false");
    assert_eq!(r.text, "Failed (exit status: 1):\n");
    assert!(r.text.contains("exit status: 1"));
    assert!(!r.text.contains("raw stdout"));
}

#[test]
fn failed_exit_trims_stderr() {
    let spec = CommandSpec::parse("sh -c exit3");
    let r = outcome_result(&spec, exited(false, "exit status: 3", b"", b"boom\n\n"));
    assert_eq!(r.text, "Failed (exit status: 3):\nboom");
}

#[test]
fn stdin_write_failure_text() {
    let spec = CommandSpec::parse("head -c 1");
    let r = outcome_result(
        &spec,
        ProcessOutcome::StdinWriteFailed { cause: "Broken pipe (os error 32)".to_string() },
    );
    assert_eq!(r.name, "head -c 1");
    assert_eq!(r.text, "Error writing to stdin: Broken pipe (os error 32)");
}

#[test]
fn wait_failure_text() {
    let spec = CommandSpec::parse("cat");
    let r = outcome_result(
        &spec,
        ProcessOutcome::WaitFailed { cause: "interrupted".to_string() },
    );
    assert_eq!(r.text, "Failed to get command output: interrupted");
}

#[test]
fn invalid_utf8_output_is_decoded_permissively() {
    let spec = CommandSpec::parse("cat");
    let r = outcome_result(&spec, exited(true, "exit status: 0", &[0xFF, b'h'], b""));
    assert_eq!(r.text, "\u{FFFD}h");
}

#[test]
fn one_job_per_configured_command() {
    let commands = vec!["cat".to_string(), "wc -w".to_string(), "  ".to_string()];
    let jobs = make_jobs("a b c", &commands);
    assert_eq!(jobs.len(), 3);
    let names: Vec<&str> = jobs.iter().map(|j| j.spec.raw.as_str()).collect();
    assert_eq!(names, vec!["cat", "wc -w", "  "]);
    for job in &jobs {
        assert_eq!(job.input, "a b c");
    }
    assert_eq!(jobs[1].spec.program, "wc");
    assert!(!jobs[2].spec.runnable());
}

#[test]
fn every_job_yields_exactly_one_update() {
    let commands = vec!["cat".to_string(), " ".to_string()];
    let jobs = make_jobs("hi", &commands);
    let mut updates: Vec<CommandUpdate> = Vec::new();
    for job in jobs {
        match plan(&job.spec) {
            WorkerStep::Finished(r) => updates.push(r),
            WorkerStep::RunProcess => {
                updates.push(outcome_result(&job.spec, exited(true, "exit status: 0", b"hi", b"")))
            }
        }
    }
    let names: Vec<&str> = updates.iter().map(|u| u.name.as_str()).collect();
    assert_eq!(names, vec!["cat", " "]);
    assert_eq!(updates[0].text, "hi");
    assert_eq!(updates[1].text, "Error: Empty command");
}

#[test]
fn default_config_values() {
    let c = Config::default();
    assert!(!c.run_commands_on_change);
    assert_eq!(c.commands, vec!["cat".to_string(), "wc".to_string()]);
    assert_eq!(c.title, "Putput");
}

#[test]
fn resolve_loaded_keeps_a_parsed_config() {
    let parsed = Config {
        run_commands_on_change: true,
        commands: vec!["rev".to_string()],
        title: "T".to_string(),
    };
    let (c, write_back) = resolve_loaded(Some(parsed));
    assert!(c.run_commands_on_change);
    assert_eq!(c.commands, vec!["rev".to_string()]);
    assert_eq!(c.title, "T");
    assert!(!write_back);
}

#[test]
fn resolve_loaded_falls_back_to_default() {
    let (c, write_back) = resolve_loaded(None);
    assert_eq!(c.commands, vec!["cat".to_string(), "wc".to_string()]);
    assert_eq!(c.title, "Putput");
    assert!(!c.run_commands_on_change);
    assert!(write_back);
}
