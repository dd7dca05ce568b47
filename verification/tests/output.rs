use wavepeek::engine::info::InfoData;
use wavepeek::engine::scope::ScopeEntry;
use wavepeek::engine::signal::SignalEntry;
use wavepeek::engine::{CommandData, CommandName, CommandResult, HumanRenderOptions};
use wavepeek::output::{
    render, render_human, render_json, render_scope_tree, scope_entry_is_last_sibling,
    signal_display_name, OutputEnvelope,
};
use wavepeek::schema_contract::SCHEMA_URL;

fn scope(path: &str, depth: usize, kind: &str) -> ScopeEntry {
    ScopeEntry {
        path: path.to_string(),
        depth,
        kind: kind.to_string(),
    }
}

fn signal(name: &str, path: &str, kind: &str, width: Option<u32>) -> SignalEntry {
    SignalEntry {
        name: name.to_string(),
        path: path.to_string(),
        kind: kind.to_string(),
        width,
    }
}

fn sample_scopes() -> Vec<ScopeEntry> {
    vec![
        scope("top", 0, "module"),
        scope("top.cpu", 1, "module"),
        scope("top.cpu.alu", 2, "function"),
        scope("top.cpu.regs", 2, "module"),
        scope("top.mem", 1, "module"),
    ]
}

#[test]
fn json_envelope_has_required_shape_for_info() {
    let result = CommandResult {
        command: CommandName::Info,
        json: true,
        human_options: HumanRenderOptions::default(),
        data: CommandData::Info(InfoData {
            time_unit: "1ns".to_string(),
            time_start: "0ns".to_string(),
            time_end: "10ns".to_string(),
        }),
        warnings: vec![],
    };

    let json = render_json(result).expect("json serialization should succeed");
    let value: serde_json::Value = serde_json::from_str(&json).expect("json should parse");

    assert_eq!(value["$schema"], SCHEMA_URL);
    assert!(value.get("schema_version").is_none());
    assert_eq!(value["command"], "info");
    assert!(value["data"].is_object());
    assert!(value["warnings"].is_array());
}

#[test]
fn json_envelope_preserves_warnings_for_scope() {
    let result = CommandResult {
        command: CommandName::Scope,
        json: true,
        human_options: HumanRenderOptions::default(),
        data: CommandData::Scope(vec![scope("top.cpu", 1, "module")]),
        warnings: vec!["truncated to 1 entries".to_string()],
    };

    let json = render_json(result).expect("json serialization should succeed");
    let value: serde_json::Value = serde_json::from_str(&json).expect("json should parse");

    assert_eq!(value["command"], "scope");
    assert_eq!(value["warnings"][0], "truncated to 1 entries");
    assert_eq!(value["data"][0]["path"], "top.cpu");
    assert_eq!(value["data"][0]["depth"], 1);
    assert_eq!(value["data"][0]["kind"], "module");
}

#[test]
fn scope_tree_render_matches_linux_tree_style() {
    let rendered = render_human(
        &CommandData::Scope(sample_scopes()),
        HumanRenderOptions {
            scope_tree: true,
            signals_abs: false,
        },
    );

    assert_eq!(
        rendered,
        "top\n├── cpu\n│   ├── alu\n│   └── regs\n└── mem"
    );
}

#[test]
fn scope_tree_of_nothing_is_empty() {
    assert_eq!(render_scope_tree(&vec![]), "");
}

#[test]
fn scope_tree_draws_blank_indent_below_a_last_sibling() {
    let scopes = vec![
        scope("top", 0, "module"),
        scope("top.a", 1, "module"),
        scope("top.a.x", 2, "module"),
        scope("top.b", 1, "module"),
        scope("top.b.y", 2, "module"),
        scope("top.b.y.z", 3, "task"),
        scope("other", 0, "module"),
    ];
    assert_eq!(
        render_scope_tree(&scopes),
        "top\n├── a\n│   └── x\n└── b\n    └── y\n        └── z\nother"
    );
}

#[test]
fn scope_tree_without_ancestors_falls_back_to_blank_indent() {
    let scopes = vec![scope("top.cpu.alu", 2, "function"), scope("top.cpu.regs", 2, "module")];
    assert_eq!(render_scope_tree(&scopes), "    ├── alu\n    └── regs");
}

#[test]
fn last_sibling_is_decided_by_scanning_forward() {
    let scopes = sample_scopes();
    assert!(scope_entry_is_last_sibling(&scopes, 0));
    assert!(!scope_entry_is_last_sibling(&scopes, 1));
    assert!(!scope_entry_is_last_sibling(&scopes, 2));
    assert!(scope_entry_is_last_sibling(&scopes, 3));
    assert!(scope_entry_is_last_sibling(&scopes, 4));
}

#[test]
fn flat_scope_listing_has_depth_path_and_kind() {
    let rendered = render_human(
        &CommandData::Scope(sample_scopes()),
        HumanRenderOptions::default(),
    );
    assert_eq!(
        rendered,
        "0 top kind=module\n1 top.cpu kind=module\n2 top.cpu.alu kind=function\n2 top.cpu.regs kind=module\n1 top.mem kind=module"
    );
}

#[test]
fn signal_listing_shows_width_only_where_there_is_one() {
    let signals = vec![
        signal("clk", "top.clk", "wire", Some(1)),
        signal("temp", "top.temp", "real", None),
    ];
    let short = render_human(
        &CommandData::Signal(signals),
        HumanRenderOptions {
            scope_tree: false,
            signals_abs: false,
        },
    );
    assert_eq!(short, "clk kind=wire width=1\ntemp kind=real");
}

#[test]
fn signal_listing_uses_full_paths_with_abs() {
    let signals = vec![signal("data", "top.data", "reg", Some(8))];
    let rendered = render_human(
        &CommandData::Signal(signals),
        HumanRenderOptions {
            scope_tree: false,
            signals_abs: true,
        },
    );
    assert_eq!(rendered, "top.data kind=reg width=8");
}

#[test]
fn display_name_follows_the_abs_flag() {
    let entry = signal("clk", "top.clk", "wire", Some(1));
    assert_eq!(signal_display_name(&entry, false), "clk");
    assert_eq!(signal_display_name(&entry, true), "top.clk");
}

#[test]
fn info_renders_three_labelled_lines() {
    let rendered = render_human(
        &CommandData::Info(InfoData {
            time_unit: "1ns".to_string(),
            time_start: "0ns".to_string(),
            time_end: "10ns".to_string(),
        }),
        HumanRenderOptions::default(),
    );
    assert_eq!(rendered, "time_unit: 1ns\ntime_start: 0ns\ntime_end: 10ns");
}

#[test]
fn schema_renders_as_it_stands() {
    let rendered = render_human(
        &CommandData::Schema("{\"a\":1}\n".to_string()),
        HumanRenderOptions::default(),
    );
    assert_eq!(rendered, "{\"a\":1}\n");
}

#[test]
fn json_envelope_is_one_exact_line_for_signals() {
    let result = CommandResult {
        command: CommandName::Signal,
        json: true,
        human_options: HumanRenderOptions::default(),
        data: CommandData::Signal(vec![
            signal("clk", "top.clk", "wire", Some(1)),
            signal("te\"mp", "top.te\"mp", "real", None),
        ]),
        warnings: vec!["first\nsecond".to_string()],
    };
    let json = render_json(result).expect("json serialization should succeed");
    let expected = format!(
        "{{\"$schema\":\"{}\",\"command\":\"signal\",\"data\":[{{\"name\":\"clk\",\"path\":\"top.clk\",\"kind\":\"wire\",\"width\":1}},{{\"name\":\"te\\\"mp\",\"path\":\"top.te\\\"mp\",\"kind\":\"real\"}}],\"warnings\":[\"first\\nsecond\"]}}",
        SCHEMA_URL
    );
    assert_eq!(json, expected);
    assert!(!json.contains('\n'));
}

#[test]
fn json_envelope_omits_absent_width() {
    let result = CommandResult {
        command: CommandName::Signal,
        json: true,
        human_options: HumanRenderOptions::default(),
        data: CommandData::Signal(vec![signal("temp", "top.temp", "real", None)]),
        warnings: vec![],
    };
    let json = render_json(result).expect("json serialization should succeed");
    let value: serde_json::Value = serde_json::from_str(&json).expect("json should parse");
    assert!(value["data"][0].get("width").is_none());
    assert_eq!(value["warnings"], serde_json::Value::Array(vec![]));
}

#[test]
fn json_envelope_of_schema_data_is_a_string() {
    let result = CommandResult {
        command: CommandName::Schema,
        json: true,
        human_options: HumanRenderOptions::default(),
        data: CommandData::Schema("{}".to_string()),
        warnings: vec![],
    };
    let json = render_json(result).expect("json serialization should succeed");
    let value: serde_json::Value = serde_json::from_str(&json).expect("json should parse");
    assert_eq!(value["data"], "{}");
    assert_eq!(value["command"], "schema");
}

#[test]
fn human_rendering_routes_warnings_to_diagnostics() {
    let result = CommandResult {
        command: CommandName::Scope,
        json: false,
        human_options: HumanRenderOptions::default(),
        data: CommandData::Scope(vec![scope("top", 0, "module")]),
        warnings: vec!["truncated output to 1 entries (use --max to increase limit)".to_string()],
    };
    let rendered = render(result).expect("rendering should succeed");
    assert_eq!(rendered.primary, "0 top kind=module\n");
    assert_eq!(
        rendered.diagnostics,
        "warning: truncated output to 1 entries (use --max to increase limit)\n"
    );
}

#[test]
fn human_rendering_of_nothing_prints_nothing() {
    let result = CommandResult {
        command: CommandName::Scope,
        json: false,
        human_options: HumanRenderOptions::default(),
        data: CommandData::Scope(vec![]),
        warnings: vec![],
    };
    let rendered = render(result).expect("rendering should succeed");
    assert_eq!(rendered.primary, "");
    assert_eq!(rendered.diagnostics, "");
}

#[test]
fn human_rendering_adds_no_second_newline() {
    let result = CommandResult {
        command: CommandName::Schema,
        json: false,
        human_options: HumanRenderOptions::default(),
        data: CommandData::Schema("{}\n".to_string()),
        warnings: vec![],
    };
    let rendered = render(result).expect("rendering should succeed");
    assert_eq!(rendered.primary, "{}\n");
}

#[test]
fn structured_rendering_keeps_warnings_in_the_envelope() {
    let result = CommandResult {
        command: CommandName::Scope,
        json: true,
        human_options: HumanRenderOptions::default(),
        data: CommandData::Scope(vec![scope("top", 0, "module")]),
        warnings: vec!["w".to_string()],
    };
    let rendered = render(result).expect("rendering should succeed");
    assert!(rendered.primary.ends_with("\"warnings\":[\"w\"]}\n"));
    assert_eq!(rendered.primary.matches('\n').count(), 1);
    assert_eq!(rendered.diagnostics, "");
}

#[test]
fn envelope_carries_the_schema_identifier() {
    let envelope = OutputEnvelope::with_warnings(
        "info",
        CommandData::Schema("x".to_string()),
        vec!["w".to_string()],
    );
    assert_eq!(envelope.schema, SCHEMA_URL);
    assert_eq!(envelope.command, "info");
    assert_eq!(envelope.warnings, vec!["w".to_string()]);
    let json = envelope.to_json().expect("json serialization should succeed");
    assert_eq!(
        json,
        format!(
            "{{\"$schema\":\"{}\",\"command\":\"info\",\"data\":\"x\",\"warnings\":[\"w\"]}}",
            SCHEMA_URL
        )
    );
}
