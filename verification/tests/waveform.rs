use wavepeek::error::WavepeekError;
use wavepeek::kinds::{map_scope_kind, map_signal_kind, ScopeKind, SignalKind};
use wavepeek::metadata::{format_timescale, normalize_time, timescale_unit_suffix};
use wavepeek::walk::ScopeEntry;
use wavepeek::waveform::{map_wellen_error, DecodeFailure, DumpFile, Waveform};

const TEST_VCD: &str = "$date\n  today\n$end\n$version\n  wavepeek-test\n$end\n$timescale 1ns $end\n$scope module top $end\n$var wire 1 ! clk $end\n$var reg 8 \" data $end\n$var parameter 8 # cfg $end\n$scope module cpu $end\n$var wire 1 $ valid $end\n$upscope $end\n$scope module mem $end\n$var wire 1 % ready $end\n$upscope $end\n$upscope $end\n$enddefinitions $end\n#0\n0!\nb00000000 \"\nb10101010 #\n0$\n0%\n#5\n1!\n1$\n#10\nb00001111 \"\n1%\n";

const DEEP_VCD: &str = "$timescale 10 ps $end\n$scope module zeta $end\n$var wire 1 ! z $end\n$upscope $end\n$scope module alpha $end\n$var wire 1 \" a $end\n$scope task worker $end\n$var reg 4 # w $end\n$scope begin inner $end\n$var integer 32 $ count $end\n$upscope $end\n$upscope $end\n$scope function helper $end\n$var real 64 % gain $end\n$upscope $end\n$upscope $end\n$enddefinitions $end\n#3\n1!\n1\"\n#7\n0!\n";

const EMPTY_TABLE_VCD: &str = "$timescale 100 us $end\n$scope module top $end\n$var wire 1 ! clk $end\n$upscope $end\n$enddefinitions $end\n";

fn decoded(contents: &str) -> DumpFile {
    let bytes = contents.as_bytes().to_vec();
    match wellen::simple::read_from_reader(std::io::Cursor::new(bytes)) {
        Ok(dump) => DumpFile::Decoded(dump.hierarchy().clone(), dump.time_table().to_vec()),
        Err(wellen::WellenError::Io(error)) => {
            DumpFile::Rejected(DecodeFailure::Io(error.to_string()))
        }
        Err(other) => DumpFile::Rejected(DecodeFailure::Format(other.to_string())),
    }
}

fn open(contents: &str, filename: &str) -> Result<Waveform, WavepeekError> {
    Waveform::open(filename, decoded(contents))
}

fn opened(contents: &str) -> Waveform {
    match open(contents, "sample.vcd") {
        Ok(waveform) => waveform,
        Err(error) => panic!("fixture should open: {}", error.render()),
    }
}

fn entry(path: &str, depth: usize, kind: ScopeKind) -> ScopeEntry {
    ScopeEntry {
        path: path.to_string(),
        depth,
        kind,
    }
}

#[test]
fn open_and_read_metadata_from_vcd() {
    let waveform = opened(TEST_VCD);
    let metadata = waveform.metadata().expect("metadata should be available");

    assert_eq!(metadata.time_unit, "1ns");
    assert_eq!(metadata.time_start, "0ns");
    assert_eq!(metadata.time_end, "10ns");
}

#[test]
fn scopes_use_deterministic_depth_first_lexicographic_order() {
    let waveform = opened(TEST_VCD);
    let scopes = waveform.scopes_depth_first(5);

    assert_eq!(
        scopes,
        vec![
            entry("top", 0, ScopeKind::Module),
            entry("top.cpu", 1, ScopeKind::Module),
            entry("top.mem", 1, ScopeKind::Module),
        ]
    );
}

#[test]
fn signals_in_scope_are_sorted_and_use_unknown_fallback_kind() {
    let waveform = opened(TEST_VCD);
    let signals = waveform
        .signals_in_scope("top")
        .expect("scope lookup should succeed");

    assert_eq!(signals.len(), 3);
    assert_eq!(signals[0].name, "cfg");
    assert_eq!(signals[0].path, "top.cfg");
    assert_eq!(signals[0].kind, SignalKind::Unknown);
    assert_eq!(signals[1].name, "clk");
    assert_eq!(signals[1].kind, SignalKind::Wire);
    assert_eq!(signals[2].name, "data");
    assert_eq!(signals[2].kind, SignalKind::Reg);
}

#[test]
fn missing_scope_returns_scope_category_error() {
    let waveform = opened(TEST_VCD);
    let error = waveform
        .signals_in_scope("top.nope")
        .expect_err("unknown scope should fail");

    assert_eq!(
        error.render(),
        "error: scope: scope 'top.nope' not found in dump"
    );
    assert_eq!(error.exit_code(), 1);
}

#[test]
fn open_missing_file_maps_to_file_error() {
    let error = Waveform::open("/tmp/this-file-does-not-exist.vcd", DumpFile::Missing)
        .err()
        .expect("missing file should fail");

    assert!(error.render().starts_with("error: file: cannot open"));
    assert_eq!(error.exit_code(), 2);
}

#[test]
fn parse_failures_map_to_file_error() {
    let error = open("not-a-waveform", "invalid.wave")
        .err()
        .expect("invalid file should fail");

    assert!(error.render().starts_with("error: file: cannot parse"));
    assert_eq!(error.exit_code(), 2);
}

#[test]
fn missing_file_error_names_the_path() {
    let error = Waveform::open("dumps/none.vcd", DumpFile::Missing)
        .err()
        .expect("missing file should fail");
    assert_eq!(
        error,
        WavepeekError::File("cannot open 'dumps/none.vcd': No such file or directory".to_string())
    );
}

#[test]
fn unreadable_file_error_carries_the_reason() {
    let error = Waveform::open(
        "dumps/locked.vcd",
        DumpFile::Unreadable("Permission denied (os error 13)".to_string()),
    )
    .err()
    .expect("unreadable file should fail");
    assert_eq!(
        error,
        WavepeekError::File(
            "cannot open 'dumps/locked.vcd': Permission denied (os error 13)".to_string()
        )
    );
}

#[test]
fn decoder_failures_are_told_apart() {
    assert_eq!(
        map_wellen_error("a.vcd", DecodeFailure::Io("io error".to_string())),
        WavepeekError::File("cannot open 'a.vcd': io error".to_string())
    );
    assert_eq!(
        map_wellen_error("a.vcd", DecodeFailure::Format("bad header".to_string())),
        WavepeekError::File("cannot parse 'a.vcd': bad header".to_string())
    );
}

#[test]
fn siblings_are_sorted_whatever_the_declaration_order() {
    let waveform = opened(DEEP_VCD);
    let scopes = waveform.scopes_depth_first(5);
    assert_eq!(
        scopes,
        vec![
            entry("alpha", 0, ScopeKind::Module),
            entry("alpha.helper", 1, ScopeKind::Function),
            entry("alpha.worker", 1, ScopeKind::Task),
            entry("alpha.worker.inner", 2, ScopeKind::Begin),
            entry("zeta", 0, ScopeKind::Module),
        ]
    );
}

#[test]
fn depth_zero_reports_only_the_roots() {
    let waveform = opened(DEEP_VCD);
    assert_eq!(
        waveform.scopes_depth_first(0),
        vec![
            entry("alpha", 0, ScopeKind::Module),
            entry("zeta", 0, ScopeKind::Module),
        ]
    );
}

#[test]
fn scopes_at_the_depth_bound_are_reported_without_their_children() {
    let waveform = opened(DEEP_VCD);
    let scopes = waveform.scopes_depth_first(1);
    assert_eq!(
        scopes,
        vec![
            entry("alpha", 0, ScopeKind::Module),
            entry("alpha.helper", 1, ScopeKind::Function),
            entry("alpha.worker", 1, ScopeKind::Task),
            entry("zeta", 0, ScopeKind::Module),
        ]
    );
    assert!(scopes.iter().all(|scope| scope.depth <= 1));
}

#[test]
fn walking_twice_gives_the_same_sequence() {
    let waveform = opened(DEEP_VCD);
    assert_eq!(waveform.scopes_depth_first(3), waveform.scopes_depth_first(3));
    let again = opened(DEEP_VCD);
    assert_eq!(waveform.scopes_depth_first(3), again.scopes_depth_first(3));
}

#[test]
fn signal_listing_is_not_recursive() {
    let waveform = opened(DEEP_VCD);
    let signals = waveform
        .signals_in_scope("alpha")
        .expect("scope lookup should succeed");
    assert_eq!(signals.len(), 1);
    assert_eq!(signals[0].name, "a");
    assert_eq!(signals[0].path, "alpha.a");
    assert_eq!(signals[0].kind, SignalKind::Wire);
    assert_eq!(signals[0].width, Some(1));
}

#[test]
fn signal_listing_reaches_nested_scopes_by_exact_path() {
    let waveform = opened(DEEP_VCD);
    let signals = waveform
        .signals_in_scope("alpha.worker.inner")
        .expect("scope lookup should succeed");
    assert_eq!(signals.len(), 1);
    assert_eq!(signals[0].path, "alpha.worker.inner.count");
    assert_eq!(signals[0].kind, SignalKind::Integer);
    assert_eq!(signals[0].width, Some(32));
}

#[test]
fn reals_have_no_width() {
    let waveform = opened(DEEP_VCD);
    let signals = waveform
        .signals_in_scope("alpha.helper")
        .expect("scope lookup should succeed");
    assert_eq!(signals.len(), 1);
    assert_eq!(signals[0].kind, SignalKind::Real);
    assert_eq!(signals[0].width, None);
}

#[test]
fn scope_lookup_is_exact() {
    let waveform = opened(DEEP_VCD);
    for path in ["alph", "alpha.", ".alpha", "", "alpha.work", "Alpha", "alpha.worker.inner.count"] {
        let error = waveform
            .signals_in_scope(path)
            .expect_err("a partial path should not resolve");
        assert_eq!(
            error,
            WavepeekError::Scope(format!("scope '{path}' not found in dump"))
        );
    }
}

#[test]
fn metadata_scales_the_bounds_by_the_factor() {
    let waveform = opened(DEEP_VCD);
    let metadata = waveform.metadata().expect("metadata should be available");
    assert_eq!(metadata.time_unit, "10ps");
    assert_eq!(metadata.time_start, "30ps");
    assert_eq!(metadata.time_end, "70ps");
}

#[test]
fn metadata_of_an_empty_time_table_is_zero() {
    let waveform = opened(EMPTY_TABLE_VCD);
    let metadata = waveform.metadata().expect("metadata should be available");
    assert_eq!(metadata.time_unit, "100us");
    assert_eq!(metadata.time_start, "0us");
    assert_eq!(metadata.time_end, "0us");
}

#[test]
fn every_unit_has_its_suffix() {
    let units = [
        (wellen::TimescaleUnit::ZeptoSeconds, "zs"),
        (wellen::TimescaleUnit::AttoSeconds, "as"),
        (wellen::TimescaleUnit::FemtoSeconds, "fs"),
        (wellen::TimescaleUnit::PicoSeconds, "ps"),
        (wellen::TimescaleUnit::NanoSeconds, "ns"),
        (wellen::TimescaleUnit::MicroSeconds, "us"),
        (wellen::TimescaleUnit::MilliSeconds, "ms"),
        (wellen::TimescaleUnit::Seconds, "s"),
    ];
    for (unit, suffix) in units {
        assert_eq!(timescale_unit_suffix(unit), Ok(suffix));
    }
}

#[test]
fn unknown_unit_is_a_file_error() {
    let expected = WavepeekError::File("waveform timescale unit is unknown".to_string());
    assert_eq!(
        timescale_unit_suffix(wellen::TimescaleUnit::Unknown),
        Err(WavepeekError::File("waveform timescale unit is unknown".to_string()))
    );
    let scale = wellen::Timescale::new(1, wellen::TimescaleUnit::Unknown);
    assert_eq!(format_timescale(scale), Err(WavepeekError::File("waveform timescale unit is unknown".to_string())));
    assert_eq!(normalize_time(5, scale).err(), Some(expected));
}

#[test]
fn timestamps_are_scaled_with_checked_multiplication() {
    let scale = wellen::Timescale::new(10, wellen::TimescaleUnit::NanoSeconds);
    assert_eq!(format_timescale(scale), Ok("10ns".to_string()));
    assert_eq!(normalize_time(0, scale), Ok("0ns".to_string()));
    assert_eq!(normalize_time(1234, scale), Ok("12340ns".to_string()));
    assert_eq!(
        normalize_time(u64::MAX / 10, scale),
        Ok("18446744073709551610ns".to_string())
    );
    assert_eq!(
        normalize_time(u64::MAX / 10 + 1, scale),
        Err(WavepeekError::File(
            "time value overflow while normalizing timestamps".to_string()
        ))
    );
    let unit = wellen::Timescale::new(1, wellen::TimescaleUnit::Seconds);
    assert_eq!(normalize_time(u64::MAX, unit), Ok("18446744073709551615s".to_string()));
}

#[test]
fn native_variable_types_collapse_into_the_kinds() {
    assert_eq!(map_signal_kind(wellen::VarType::Wire), SignalKind::Wire);
    assert_eq!(map_signal_kind(wellen::VarType::Tri0), SignalKind::Wire);
    assert_eq!(map_signal_kind(wellen::VarType::Supply1), SignalKind::Wire);
    assert_eq!(map_signal_kind(wellen::VarType::Port), SignalKind::Wire);
    assert_eq!(map_signal_kind(wellen::VarType::Reg), SignalKind::Reg);
    assert_eq!(map_signal_kind(wellen::VarType::Logic), SignalKind::Logic);
    assert_eq!(map_signal_kind(wellen::VarType::Integer), SignalKind::Integer);
    assert_eq!(map_signal_kind(wellen::VarType::Time), SignalKind::Integer);
    assert_eq!(map_signal_kind(wellen::VarType::Byte), SignalKind::Integer);
    assert_eq!(map_signal_kind(wellen::VarType::RealTime), SignalKind::Real);
    assert_eq!(map_signal_kind(wellen::VarType::RealParameter), SignalKind::Real);
    assert_eq!(map_signal_kind(wellen::VarType::String), SignalKind::String);
    assert_eq!(map_signal_kind(wellen::VarType::Parameter), SignalKind::Unknown);
    assert_eq!(map_signal_kind(wellen::VarType::Event), SignalKind::Unknown);
    assert_eq!(map_signal_kind(wellen::VarType::StdLogicVector), SignalKind::Unknown);
}

#[test]
fn kinds_have_their_words() {
    let words = [
        (SignalKind::Wire, "wire"),
        (SignalKind::Reg, "reg"),
        (SignalKind::Logic, "logic"),
        (SignalKind::Integer, "integer"),
        (SignalKind::Real, "real"),
        (SignalKind::String, "string"),
        (SignalKind::Parameter, "parameter"),
        (SignalKind::Unknown, "unknown"),
    ];
    for (kind, word) in words {
        assert_eq!(kind.as_str(), word);
    }
    assert_eq!(ScopeKind::Module.as_str(), "module");
    assert_eq!(ScopeKind::Function.as_str(), "function");
    assert_eq!(ScopeKind::Task.as_str(), "task");
    assert_eq!(ScopeKind::Unknown.as_str(), "unknown");
}

#[test]
fn native_scope_types_collapse_into_the_kinds() {
    assert_eq!(map_scope_kind(wellen::ScopeType::Module), ScopeKind::Module);
    assert_eq!(map_scope_kind(wellen::ScopeType::Task), ScopeKind::Task);
    assert_eq!(map_scope_kind(wellen::ScopeType::Function), ScopeKind::Function);
    assert_eq!(map_scope_kind(wellen::ScopeType::Generate), ScopeKind::Generate);
    assert_eq!(map_scope_kind(wellen::ScopeType::VhdlArchitecture), ScopeKind::Unknown);
    assert_eq!(map_scope_kind(wellen::ScopeType::Unknown), ScopeKind::Unknown);
}

#[test]
fn paths_lie_below_the_paths_of_their_parents() {
    let waveform = opened(DEEP_VCD);
    let scopes = waveform.scopes_depth_first(5);
    for (index, scope) in scopes.iter().enumerate() {
        if scope.depth == 0 {
            continue;
        }
        let parent = scopes[..index]
            .iter()
            .rev()
            .find(|earlier| earlier.depth + 1 == scope.depth)
            .expect("a parent should stand in front");
        assert!(scope.path.starts_with(format!("{}.", parent.path).as_str()));
    }
}
