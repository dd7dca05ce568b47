use wavepeek::cli::at::AtArgs;
use wavepeek::cli::change::ChangeArgs;
use wavepeek::cli::info::InfoArgs;
use wavepeek::cli::schema::SchemaArgs;
use wavepeek::cli::scope::ScopeArgs;
use wavepeek::cli::signal::SignalArgs;
use wavepeek::cli::when::WhenArgs;
use wavepeek::cli::{dispatch, Command as CliCommand};
use wavepeek::engine::{execute, plan, run, Command, CommandData, CommandName, CommandResult, Plan};
use wavepeek::error::WavepeekError;
use wavepeek::output::{render, render_human};
use wavepeek::schema_contract::CANONICAL_SCHEMA_JSON;
use wavepeek::waveform::{DecodeFailure, DumpFile};

const CORE_VCD: &str = "$date\n  today\n$end\n$version\n  wavepeek-test\n$end\n$timescale 1ns $end\n$scope module top $end\n$var wire 1 ! clk $end\n$var reg 8 \" data $end\n$var parameter 8 # cfg $end\n$scope module cpu $end\n$var wire 1 $ valid $end\n$upscope $end\n$scope module mem $end\n$var wire 1 % ready $end\n$upscope $end\n$upscope $end\n$enddefinitions $end\n#0\n0!\nb00000000 \"\nb10101010 #\n0$\n0%\n#5\n1!\n1$\n#10\nb00001111 \"\n1%\n";

fn decoded(contents: &str) -> DumpFile {
    let bytes = contents.as_bytes().to_vec();
    match wellen::simple::read_from_reader(std::io::Cursor::new(bytes)) {
        Ok(dump) => DumpFile::Decoded(dump.hierarchy().clone(), dump.time_table().to_vec()),
        Err(wellen::WellenError::Io(error)) => {
            DumpFile::Rejected(DecodeFailure::Io(error.to_string()))
        }
        Err(other) => DumpFile::Rejected(DecodeFailure::Format(other.to_string())),
    }
}

fn dump() -> DumpFile {
    decoded(CORE_VCD)
}

fn scope_args(max: usize, max_depth: usize, filter: &str) -> ScopeArgs {
    ScopeArgs {
        waves: "core.vcd".to_string(),
        max,
        max_depth,
        filter: filter.to_string(),
        tree: false,
        json: false,
    }
}

fn signal_args(scope: &str, max: usize, filter: &str) -> SignalArgs {
    SignalArgs {
        waves: "core.vcd".to_string(),
        scope: scope.to_string(),
        max,
        filter: filter.to_string(),
        abs: false,
        json: false,
    }
}

fn succeeded(result: Result<CommandResult, WavepeekError>) -> CommandResult {
    match result {
        Ok(result) => result,
        Err(error) => panic!("command should succeed: {}", error.render()),
    }
}

fn failed(result: Result<CommandResult, WavepeekError>) -> WavepeekError {
    match result {
        Ok(_) => panic!("command should fail"),
        Err(error) => error,
    }
}

fn scope_paths(result: &CommandResult) -> Vec<String> {
    match &result.data {
        CommandData::Scope(entries) => entries.iter().map(|entry| entry.path.clone()).collect(),
        _ => panic!("expected scope data"),
    }
}

fn signal_names(result: &CommandResult) -> Vec<String> {
    match &result.data {
        CommandData::Signal(entries) => entries.iter().map(|entry| entry.name.clone()).collect(),
        _ => panic!("expected signal data"),
    }
}

#[test]
fn info_reports_unit_and_bounds() {
    let args = InfoArgs {
        waves: "core.vcd".to_string(),
        json: true,
    };
    let result = succeeded(run(Command::Info(args), dump()));
    assert_eq!(result.command, CommandName::Info);
    assert!(result.json);
    assert!(result.warnings.is_empty());
    assert_eq!(
        render_human(&result.data, result.human_options),
        "time_unit: 1ns\ntime_start: 0ns\ntime_end: 10ns"
    );
}

#[test]
fn info_of_a_missing_dump_is_a_file_error() {
    let args = InfoArgs {
        waves: "gone.vcd".to_string(),
        json: false,
    };
    let error = failed(run(Command::Info(args), DumpFile::Missing));
    assert_eq!(
        error,
        WavepeekError::File("cannot open 'gone.vcd': No such file or directory".to_string())
    );
    assert_eq!(error.exit_code(), 2);
}

#[test]
fn scope_lists_the_walk_with_kinds() {
    let result = succeeded(run(Command::Scope(scope_args(50, 5, ".*")), dump()));
    assert_eq!(result.command, CommandName::Scope);
    assert!(result.warnings.is_empty());
    assert_eq!(
        render_human(&result.data, result.human_options),
        "0 top kind=module\n1 top.cpu kind=module\n1 top.mem kind=module"
    );
}

#[test]
fn scope_respects_the_depth_bound() {
    let result = succeeded(run(Command::Scope(scope_args(50, 0, ".*")), dump()));
    assert_eq!(scope_paths(&result), vec!["top".to_string()]);
}

#[test]
fn scope_filter_applies_to_the_path() {
    let result = succeeded(run(Command::Scope(scope_args(50, 5, "^top\\..*")), dump()));
    assert_eq!(
        scope_paths(&result),
        vec!["top.cpu".to_string(), "top.mem".to_string()]
    );
    assert!(result.warnings.is_empty());
}

#[test]
fn scope_truncation_keeps_the_first_entries_and_warns_once() {
    let result = succeeded(run(Command::Scope(scope_args(2, 5, ".*")), dump()));
    assert_eq!(
        scope_paths(&result),
        vec!["top".to_string(), "top.cpu".to_string()]
    );
    assert_eq!(
        result.warnings,
        vec!["truncated output to 2 entries (use --max to increase limit)".to_string()]
    );
}

#[test]
fn scope_at_the_cap_does_not_warn() {
    let result = succeeded(run(Command::Scope(scope_args(3, 5, ".*")), dump()));
    assert_eq!(scope_paths(&result).len(), 3);
    assert!(result.warnings.is_empty());
}

#[test]
fn scope_tree_flag_reaches_the_renderer() {
    let mut args = scope_args(50, 5, ".*");
    args.tree = true;
    let result = succeeded(run(Command::Scope(args), dump()));
    assert!(result.human_options.scope_tree);
    let rendered = render(result).expect("rendering should succeed");
    assert_eq!(rendered.primary, "top\n├── cpu\n└── mem\n");
    assert_eq!(rendered.diagnostics, "");
}

#[test]
fn zero_max_is_an_args_error_before_the_dump_is_opened() {
    let error = failed(run(Command::Scope(scope_args(0, 5, ".*")), DumpFile::Missing));
    assert_eq!(
        error,
        WavepeekError::Args(
            "--max must be greater than 0. See 'wavepeek scope --help'.".to_string()
        )
    );
    assert_eq!(error.exit_code(), 1);
    let error = failed(run(Command::Signal(signal_args("top", 0, ".*")), DumpFile::Missing));
    assert_eq!(
        error,
        WavepeekError::Args(
            "--max must be greater than 0. See 'wavepeek signal --help'.".to_string()
        )
    );
}

#[test]
fn invalid_regex_is_an_args_error_before_the_dump_is_opened() {
    let error = failed(run(Command::Scope(scope_args(5, 5, "(")), DumpFile::Missing));
    let text = error.render();
    assert!(text.starts_with("error: args: invalid regex '(': "));
    assert!(text.ends_with(". See 'wavepeek scope --help'."));
    let error = failed(run(Command::Signal(signal_args("top", 5, "[")), DumpFile::Missing));
    let text = error.render();
    assert!(text.starts_with("error: args: invalid regex '[': "));
    assert!(text.ends_with(". See 'wavepeek signal --help'."));
}

#[test]
fn signal_lists_sorted_names() {
    let result = succeeded(run(Command::Signal(signal_args("top", 50, ".*")), dump()));
    assert_eq!(result.command, CommandName::Signal);
    assert_eq!(
        signal_names(&result),
        vec!["cfg".to_string(), "clk".to_string(), "data".to_string()]
    );
    assert_eq!(
        render_human(&result.data, result.human_options),
        "cfg kind=unknown width=8\nclk kind=wire width=1\ndata kind=reg width=8"
    );
}

#[test]
fn signal_filter_applies_to_the_name() {
    let result = succeeded(run(Command::Signal(signal_args("top", 50, "^c")), dump()));
    assert_eq!(
        signal_names(&result),
        vec!["cfg".to_string(), "clk".to_string()]
    );
    let none = succeeded(run(Command::Signal(signal_args("top", 50, "top")), dump()));
    assert!(signal_names(&none).is_empty());
}

#[test]
fn signal_truncation_warns_once() {
    let result = succeeded(run(Command::Signal(signal_args("top", 1, ".*")), dump()));
    assert_eq!(signal_names(&result), vec!["cfg".to_string()]);
    assert_eq!(
        result.warnings,
        vec!["truncated output to 1 entries (use --max to increase limit)".to_string()]
    );
}

#[test]
fn signal_abs_flag_reaches_the_renderer() {
    let mut args = signal_args("top.cpu", 50, ".*");
    args.abs = true;
    let result = succeeded(run(Command::Signal(args), dump()));
    assert_eq!(
        render_human(&result.data, result.human_options),
        "top.cpu.valid kind=wire width=1"
    );
}

#[test]
fn unknown_scope_is_a_scope_error() {
    let error = failed(run(Command::Signal(signal_args("top.nope", 50, ".*")), dump()));
    assert_eq!(
        error,
        WavepeekError::Scope("scope 'top.nope' not found in dump".to_string())
    );
    assert_eq!(error.render(), "error: scope: scope 'top.nope' not found in dump");
    assert_eq!(error.exit_code(), 1);
}

#[test]
fn schema_reports_the_canonical_schema() {
    let result = succeeded(run(
        Command::Schema(SchemaArgs { json: false }),
        DumpFile::Missing,
    ));
    assert_eq!(result.command, CommandName::Schema);
    assert!(!result.json);
    let rendered = render(result).expect("rendering should succeed");
    assert_eq!(rendered.primary, CANONICAL_SCHEMA_JSON);
    let value: serde_json::Value =
        serde_json::from_str(&rendered.primary).expect("schema should be valid json");
    assert!(value.is_object());
}

#[test]
fn unimplemented_commands_name_themselves() {
    let at = AtArgs {
        waves: "core.vcd".to_string(),
        time: "5ns".to_string(),
        scope: None,
        signals: vec!["clk".to_string()],
        json: false,
    };
    let error = failed(run(Command::At(at), dump()));
    assert_eq!(
        error.render(),
        "error: unimplemented: `at` command execution is not implemented yet"
    );
    assert_eq!(error.exit_code(), 1);

    let change = ChangeArgs {
        waves: "core.vcd".to_string(),
        from: None,
        to: None,
        scope: None,
        signals: vec![],
        clk: None,
        max: 50,
        json: false,
    };
    let error = failed(run(Command::Change(change), dump()));
    assert_eq!(
        error.render(),
        "error: unimplemented: `change` command execution is not implemented yet"
    );

    let when = WhenArgs {
        waves: "core.vcd".to_string(),
        clk: "clk".to_string(),
        from: None,
        to: None,
        scope: None,
        cond: "valid".to_string(),
        first: None,
        last: None,
        max: None,
        json: false,
    };
    let error = failed(run(Command::When(when), dump()));
    assert_eq!(
        error.render(),
        "error: unimplemented: `when` command execution is not implemented yet"
    );
}

#[test]
fn only_the_reading_commands_name_a_dump() {
    let info = Command::Info(InfoArgs {
        waves: "a.vcd".to_string(),
        json: false,
    });
    assert_eq!(info.waves(), Some("a.vcd"));
    assert_eq!(Command::Scope(scope_args(1, 1, ".*")).waves(), Some("core.vcd"));
    assert_eq!(Command::Signal(signal_args("top", 1, ".*")).waves(), Some("core.vcd"));
    assert_eq!(Command::Schema(SchemaArgs { json: false }).waves(), None);
}

#[test]
fn dispatch_runs_the_command_in_the_engine() {
    let result = succeeded(dispatch(
        CliCommand::Signal(signal_args("top.mem", 50, ".*")),
        dump(),
    ));
    assert_eq!(signal_names(&result), vec!["ready".to_string()]);
}

#[test]
fn plan_finds_argument_errors_without_a_dump() {
    let error = plan(Command::Scope(scope_args(0, 5, ".*")))
        .err()
        .expect("a cap of zero should fail");
    assert_eq!(
        error,
        WavepeekError::Args(
            "--max must be greater than 0. See 'wavepeek scope --help'.".to_string()
        )
    );
    let error = plan(Command::Signal(signal_args("top", 3, "(")))
        .err()
        .expect("a bad filter should fail");
    assert!(error
        .render()
        .starts_with("error: args: invalid regex '(': "));
}

#[test]
fn plan_keeps_the_arguments_and_names_the_dump() {
    let ready = plan(Command::Scope(scope_args(4, 2, "^top$"))).expect("plan should succeed");
    assert_eq!(ready.waves(), Some("core.vcd"));
    match &ready {
        Plan::Scope(args, filter) => {
            assert_eq!(args.max, 4);
            assert_eq!(args.max_depth, 2);
            assert_eq!(filter.as_str(), "^top$");
        }
        other => panic!("expected a scope plan, got {other:?}"),
    }
    let result = succeeded(execute(ready, dump()));
    assert_eq!(scope_paths(&result), vec!["top".to_string()]);

    let schema = plan(Command::Schema(SchemaArgs { json: true })).expect("plan should succeed");
    assert_eq!(schema.waves(), None);
}

#[test]
fn execute_reports_a_dump_that_cannot_be_read() {
    let ready = plan(Command::Signal(signal_args("top", 5, ".*"))).expect("plan should succeed");
    let error = failed(execute(
        ready,
        DumpFile::Unreadable("Permission denied (os error 13)".to_string()),
    ));
    assert_eq!(
        error,
        WavepeekError::File("cannot open 'core.vcd': Permission denied (os error 13)".to_string())
    );
}

#[test]
fn outside_words_are_put_on_a_single_line() {
    let error = failed(run(Command::Scope(scope_args(5, 5, "a(b")), DumpFile::Missing));
    let text = error.render();
    assert!(text.starts_with("error: args: invalid regex 'a(b': "));
    assert!(text.ends_with(". See 'wavepeek scope --help'."));
    assert!(!text.contains('\n'));

    let info = InfoArgs {
        waves: "odd.vcd".to_string(),
        json: false,
    };
    let rejected = DumpFile::Rejected(DecodeFailure::Format(
        "failed to load Vcd:\n  unexpected token\n".to_string(),
    ));
    let error = failed(run(Command::Info(info), rejected));
    assert_eq!(
        error,
        WavepeekError::File(
            "cannot parse 'odd.vcd': failed to load Vcd: unexpected token".to_string()
        )
    );
}
