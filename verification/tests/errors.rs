use wavepeek::engine::unimplemented;
use wavepeek::error::WavepeekError;

#[test]
fn scope_errors_render_with_their_category_prefix() {
    let error = WavepeekError::Scope("scope 'top.nope' not found in dump".to_string());
    assert_eq!(error.render(), "error: scope: scope 'top.nope' not found in dump");
    assert_eq!(error.exit_code(), 1);
}

#[test]
fn every_category_has_its_prefix_and_status() {
    let cases = [
        (WavepeekError::Args("m".to_string()), "error: args: m", "args", 1),
        (WavepeekError::File("m".to_string()), "error: file: m", "file", 2),
        (WavepeekError::Scope("m".to_string()), "error: scope: m", "scope", 1),
        (
            WavepeekError::Unimplemented("m".to_string()),
            "error: unimplemented: m",
            "unimplemented",
            1,
        ),
        (WavepeekError::Internal("m".to_string()), "error: internal: m", "internal", 1),
    ];
    for (error, line, category, status) in cases {
        assert_eq!(error.render(), line);
        assert_eq!(error.category(), category);
        assert_eq!(error.message(), "m");
        assert_eq!(error.exit_code(), status);
    }
}

#[test]
fn unimplemented_errors_name_the_command() {
    assert_eq!(
        unimplemented("change"),
        WavepeekError::Unimplemented(
            "`change` command execution is not implemented yet".to_string()
        )
    );
}

#[test]
fn errors_render_on_a_single_line() {
    let error = WavepeekError::Scope("scope 'top\n.cpu' not found in dump\n".to_string());
    assert_eq!(error.render(), "error: scope: scope 'top .cpu' not found in dump");
    let error = WavepeekError::Args("first\r\n   second\n\nthird".to_string());
    assert_eq!(error.render(), "error: args: first second third");
}
