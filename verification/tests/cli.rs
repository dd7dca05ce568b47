use wavepeek::cli::info::InfoArgs;
use wavepeek::cli::scope::ScopeArgs;
use wavepeek::cli::signal::SignalArgs;
use wavepeek::cli::{
    clap_error_detail, help_hint_for_rendered_clap_error, into_engine_command,
    normalize_clap_error, Command,
};
use wavepeek::engine::Command as EngineCommand;

fn flag(name: &'static str) -> clap::Arg {
    clap::Arg::new(name)
        .long(name)
        .action(clap::ArgAction::SetTrue)
}

fn option(name: &'static str, long: &'static str) -> clap::Arg {
    clap::Arg::new(name).long(long)
}

fn grammar() -> clap::Command {
    clap::Command::new("wavepeek")
        .subcommand(
            clap::Command::new("info")
                .arg(option("waves", "waves").required(true))
                .arg(flag("json")),
        )
        .subcommand(
            clap::Command::new("scope")
                .arg(option("waves", "waves").required(true))
                .arg(option("max", "max").default_value("50"))
                .arg(option("max_depth", "max-depth").default_value("5"))
                .arg(option("filter", "filter").default_value(".*"))
                .arg(flag("tree"))
                .arg(flag("json")),
        )
        .subcommand(
            clap::Command::new("signal")
                .arg(option("waves", "waves").required(true))
                .arg(option("scope", "scope").required(true))
                .arg(option("max", "max").default_value("50"))
                .arg(option("filter", "filter").default_value(".*"))
                .arg(flag("abs"))
                .arg(flag("json")),
        )
}

fn text(matches: &clap::ArgMatches, name: &str) -> String {
    matches
        .get_one::<String>(name)
        .expect("argument should have a value")
        .clone()
}

fn number(matches: &clap::ArgMatches, name: &str) -> usize {
    text(matches, name)
        .parse()
        .expect("argument should be a number")
}

fn parse_from(argv: &[&str]) -> Command {
    let matches = grammar()
        .try_get_matches_from(argv)
        .expect("command line should parse");
    match matches.subcommand() {
        Some(("info", args)) => Command::Info(InfoArgs {
            waves: text(args, "waves"),
            json: args.get_flag("json"),
        }),
        Some(("scope", args)) => Command::Scope(ScopeArgs {
            waves: text(args, "waves"),
            max: number(args, "max"),
            max_depth: number(args, "max_depth"),
            filter: text(args, "filter"),
            tree: args.get_flag("tree"),
            json: args.get_flag("json"),
        }),
        Some(("signal", args)) => Command::Signal(SignalArgs {
            waves: text(args, "waves"),
            scope: text(args, "scope"),
            max: number(args, "max"),
            filter: text(args, "filter"),
            abs: args.get_flag("abs"),
            json: args.get_flag("json"),
        }),
        other => panic!("unexpected command line: {other:?}"),
    }
}

#[test]
fn info_dispatch_keeps_json_and_waves_args() {
    let parsed = parse_from(&[
        "wavepeek",
        "info",
        "--waves",
        "fixtures/sample.vcd",
        "--json",
    ]);

    let command = into_engine_command(parsed);
    match command {
        EngineCommand::Info(args) => {
            assert_eq!(args.waves, "fixtures/sample.vcd");
            assert!(args.json);
        }
        other => panic!("expected info command, got {other:?}"),
    }
}

#[test]
fn modules_dispatch_keeps_bounded_query_args() {
    let parsed = parse_from(&[
        "wavepeek",
        "scope",
        "--waves",
        "fixtures/sample.vcd",
        "--max",
        "12",
        "--max-depth",
        "3",
        "--filter",
        "^top\\..*",
        "--tree",
        "--json",
    ]);

    let command = into_engine_command(parsed);
    match command {
        EngineCommand::Scope(args) => {
            assert_eq!(args.waves, "fixtures/sample.vcd");
            assert_eq!(args.max, 12);
            assert_eq!(args.max_depth, 3);
            assert_eq!(args.filter, "^top\\..*");
            assert!(args.tree);
            assert!(args.json);
        }
        other => panic!("expected scope command, got {other:?}"),
    }
}

#[test]
fn signals_dispatch_keeps_scope_filter_and_max_args() {
    let parsed = parse_from(&[
        "wavepeek",
        "signal",
        "--waves",
        "fixtures/sample.vcd",
        "--scope",
        "top.cpu",
        "--max",
        "7",
        "--filter",
        ".*clk.*",
        "--abs",
        "--json",
    ]);

    let command = into_engine_command(parsed);
    match command {
        EngineCommand::Signal(args) => {
            assert_eq!(args.waves, "fixtures/sample.vcd");
            assert_eq!(args.scope, "top.cpu");
            assert_eq!(args.max, 7);
            assert_eq!(args.filter, ".*clk.*");
            assert!(args.abs);
            assert!(args.json);
        }
        other => panic!("expected signal command, got {other:?}"),
    }
}

#[test]
fn clap_error_detail_preserves_missing_argument_names() {
    let rendered = "error: the following required arguments were not provided:\n  --waves <FILE>\n\nUsage: wavepeek info --waves <FILE>\n\nFor more information, try '--help'.\n";

    let normalized = clap_error_detail(rendered);
    assert!(normalized.contains("the following required arguments were not provided"));
    assert!(normalized.contains("--waves <FILE>"));
    assert!(!normalized.contains("Usage:"));
}

#[test]
fn help_hint_uses_global_help_for_top_level_parse_failures() {
    let rendered = "error: unexpected argument '--wat' found\n\nUsage: wavepeek [OPTIONS] <COMMAND>\n\nFor more information, try '--help'.\n";
    let hint = help_hint_for_rendered_clap_error(rendered);
    assert_eq!(hint, "See 'wavepeek --help'.");
}

#[test]
fn help_hint_uses_subcommand_help_for_subcommand_parse_failures() {
    let rendered = "error: unexpected argument '--wat' found\n\nUsage: wavepeek info --waves <FILE>\n\nFor more information, try '--help'.\n";
    let hint = help_hint_for_rendered_clap_error(rendered);
    assert_eq!(hint, "See 'wavepeek info --help'.");
}

#[test]
fn clap_errors_are_normalized_to_single_line_message() {
    let error = grammar()
        .subcommand(clap::Command::new("schema").arg(flag("json")))
        .try_get_matches_from(["wavepeek", "schema", "--waves", "dump.vcd"])
        .expect_err("schema --waves should fail");

    let normalized = normalize_clap_error(error.render().to_string().as_str());
    assert!(normalized.contains("unexpected argument '--waves'"));
    assert!(normalized.contains("See 'wavepeek schema --help'."));
    assert!(!normalized.contains("Usage:"));
}

#[test]
fn clap_error_detail_is_exactly_the_joined_pieces() {
    let rendered = "error: the following required arguments were not provided:\n  --waves <FILE>\n\nUsage: wavepeek info --waves <FILE>\n\nFor more information, try '--help'.\n";
    assert_eq!(
        clap_error_detail(rendered),
        "the following required arguments were not provided: --waves <FILE>"
    );
}

#[test]
fn clap_error_detail_handles_crlf_and_tip_lines() {
    let rendered = "  error: unexpected argument '--human' found\r\n\r\n  tip: a similar argument exists: '--json'\r\n\r\nUsage: wavepeek scope --waves <FILE>\r\n";
    assert_eq!(
        clap_error_detail(rendered),
        "unexpected argument '--human' found tip: a similar argument exists: '--json'"
    );
}

#[test]
fn clap_error_detail_falls_back_to_first_nonblank_line() {
    assert_eq!(clap_error_detail("\n   something odd happened  \nmore\n"), "something odd happened");
}

#[test]
fn clap_error_detail_of_empty_text_is_invalid_arguments() {
    assert_eq!(clap_error_detail(""), "invalid arguments");
    assert_eq!(clap_error_detail(" \n\t\n"), "invalid arguments");
}

#[test]
fn clap_error_detail_of_bare_error_line_is_empty() {
    assert_eq!(clap_error_detail("error:   \nUsage: wavepeek info\n"), "");
}

#[test]
fn help_hint_is_global_without_usage_line() {
    assert_eq!(help_hint_for_rendered_clap_error("error: boom\n"), "See 'wavepeek --help'.");
}

#[test]
fn help_hint_is_global_for_other_programs_and_bare_usage() {
    assert_eq!(
        help_hint_for_rendered_clap_error("Usage: other info --waves <FILE>\n"),
        "See 'wavepeek --help'."
    );
    assert_eq!(help_hint_for_rendered_clap_error("Usage: wavepeek\n"), "See 'wavepeek --help'.");
    assert_eq!(help_hint_for_rendered_clap_error("Usage:\n"), "See 'wavepeek --help'.");
    assert_eq!(
        help_hint_for_rendered_clap_error("Usage: wavepeek --waves <FILE>\n"),
        "See 'wavepeek --help'."
    );
    assert_eq!(
        help_hint_for_rendered_clap_error("Usage: wavepeek <COMMAND>\n"),
        "See 'wavepeek --help'."
    );
}

#[test]
fn help_hint_skips_a_repeated_usage_label() {
    assert_eq!(
        help_hint_for_rendered_clap_error("   Usage:Usage:   wavepeek signal --scope <SCOPE>\n"),
        "See 'wavepeek signal --help'."
    );
}

#[test]
fn normalized_clap_error_is_detail_then_hint() {
    let rendered = "error: unexpected argument '--waves' found\n\nUsage: wavepeek schema [OPTIONS]\n\nFor more information, try '--help'.\n";
    let normalized = normalize_clap_error(rendered);
    assert_eq!(
        normalized,
        "unexpected argument '--waves' found See 'wavepeek schema --help'."
    );
    assert!(!normalized.contains("Usage:"));
}
