use web_links::tmux_hyperlinks::{
    classify_output, needs_exit_status, parse_clients, socket_if_absolute, tmux_executable_candidates,
    tmux_socket_field_of, tmux_socket_path, TmuxHyperlinks, MAX_OUTPUT,
};

#[test]
fn every_attached_client_must_report_hyperlinks() {
    for (output, expected) in [
        (
            "xterm-ghostty\tRGB,hyperlinks,clipboard\n",
            TmuxHyperlinks::Supported,
        ),
        (
            "xterm-ghostty\thyperlinks\nxterm-kitty\tRGB,hyperlinks\n",
            TmuxHyperlinks::Supported,
        ),
        (
            "xterm-ghostty\thyperlinks\nxterm-256color\tRGB\n",
            TmuxHyperlinks::Unknown,
        ),
        ("tmux-256color\thyperlinks\n", TmuxHyperlinks::Unknown),
        ("screen-256color\thyperlinks\n", TmuxHyperlinks::Unknown),
        ("dumb\thyperlinks\n", TmuxHyperlinks::Unknown),
        ("xterm-ghostty\tnohyperlinks\n", TmuxHyperlinks::Unknown),
        ("xterm-ghostty\t\n", TmuxHyperlinks::Unknown),
        ("\thyperlinks\n", TmuxHyperlinks::Unknown),
        ("unknown-format\n", TmuxHyperlinks::Unknown),
        ("", TmuxHyperlinks::Unknown),
    ] {
        assert_eq!(parse_clients(output), expected, "output: {output:?}");
    }
}

#[test]
fn client_lines_follow_str_lines() {
    // The final newline is optional, and "\r\n" ends a line like "\n".
    assert_eq!(parse_clients("xterm-ghostty\thyperlinks"), TmuxHyperlinks::Supported);
    assert_eq!(parse_clients("xterm-ghostty\thyperlinks\r\n"), TmuxHyperlinks::Supported);
    assert_eq!(
        parse_clients("xterm-ghostty\thyperlinks\r\nxterm-kitty\thyperlinks\r\n"),
        TmuxHyperlinks::Supported
    );
    // A carriage return at the very end is not part of a line ending.
    assert_eq!(parse_clients("xterm-ghostty\thyperlinks\r"), TmuxHyperlinks::Unknown);
    // An empty line is a client without a tab.
    assert_eq!(parse_clients("xterm-ghostty\thyperlinks\n\n"), TmuxHyperlinks::Unknown);
    assert_eq!(parse_clients("\n"), TmuxHyperlinks::Unknown);
}

#[test]
fn features_are_split_at_commas_after_the_first_tab() {
    assert_eq!(parse_clients("xterm\tRGB,hyperlinks"), TmuxHyperlinks::Supported);
    assert_eq!(parse_clients("xterm\thyperlinks,"), TmuxHyperlinks::Supported);
    assert_eq!(parse_clients("xterm\thyperlinks2"), TmuxHyperlinks::Unknown);
    assert_eq!(parse_clients("xterm\tRGB hyperlinks"), TmuxHyperlinks::Unknown);
    // Only the first tab separates the name; later tabs belong to the features.
    assert_eq!(parse_clients("xterm\tx\thyperlinks"), TmuxHyperlinks::Unknown);
    assert_eq!(parse_clients("xterm\tx,\thyperlinks,hyperlinks"), TmuxHyperlinks::Supported);
    // Names are compared exactly: "dumbterm" and "xtmux" are fine.
    assert_eq!(parse_clients("dumbterm\thyperlinks"), TmuxHyperlinks::Supported);
    assert_eq!(parse_clients("xtmux\thyperlinks"), TmuxHyperlinks::Supported);
    assert_eq!(parse_clients("tmux\thyperlinks"), TmuxHyperlinks::Unknown);
    assert_eq!(parse_clients("screen\thyperlinks"), TmuxHyperlinks::Unknown);
}

#[test]
fn one_unsupported_client_spoils_the_rest() {
    let good = "xterm-ghostty\thyperlinks\n";
    let bad = "xterm-256color\tRGB\n";
    assert_eq!(parse_clients(&format!("{good}{good}")), TmuxHyperlinks::Supported);
    assert_eq!(parse_clients(&format!("{good}{bad}")), TmuxHyperlinks::Unknown);
    assert_eq!(parse_clients(&format!("{bad}{good}")), TmuxHyperlinks::Unknown);
}

#[test]
fn finished_runs_are_classified_from_status_size_and_encoding() {
    let ok = b"xterm-ghostty\thyperlinks\n";
    assert_eq!(classify_output(ok, true), TmuxHyperlinks::Supported);
    // A failed run is never trusted.
    assert_eq!(classify_output(ok, false), TmuxHyperlinks::Unknown);
    // Bytes that are not UTF-8.
    assert_eq!(classify_output(&[0xff], true), TmuxHyperlinks::Unknown);
    assert_eq!(classify_output(b"", true), TmuxHyperlinks::Unknown);
    // Output within the limit is read; beyond it, never.
    let mut exact = Vec::new();
    while exact.len() + ok.len() <= MAX_OUTPUT {
        exact.extend_from_slice(ok);
    }
    assert_eq!(classify_output(&exact, true), TmuxHyperlinks::Supported);
    let mut too_long = exact.clone();
    too_long.extend_from_slice(ok);
    assert!(too_long.len() > MAX_OUTPUT);
    assert_eq!(classify_output(&too_long, true), TmuxHyperlinks::Unknown);
}

#[test]
fn exit_status_matters_only_within_the_limit() {
    assert_eq!(MAX_OUTPUT, 8192);
    assert!(needs_exit_status(0));
    assert!(needs_exit_status(8192));
    assert!(!needs_exit_status(8193));
}

#[test]
fn socket_is_everything_before_pid_and_session() {
    assert_eq!(tmux_socket_field_of("/tmp/tmux-1000/default,4242,0"), Some("/tmp/tmux-1000/default"));
    assert_eq!(tmux_socket_field_of("/tmp/a,b/sock,4242,0"), Some("/tmp/a,b/sock"));
    assert_eq!(tmux_socket_field_of("relative,1,2"), Some("relative"));
    assert_eq!(tmux_socket_field_of(",1,2"), Some(""));
    assert_eq!(tmux_socket_field_of("/tmp/sock,1"), None);
    assert_eq!(tmux_socket_field_of("/tmp/sock"), None);
    assert_eq!(tmux_socket_field_of(""), None);
}

#[test]
fn socket_path_must_be_absolute() {
    assert_eq!(tmux_socket_path("/tmp/tmux-1000/default,4242,0"), Some("/tmp/tmux-1000/default"));
    assert_eq!(tmux_socket_path("relative/sock,1,2"), None);
    assert_eq!(tmux_socket_path(",1,2"), None);
    assert_eq!(tmux_socket_path("/tmp/sock,1"), None);
}

#[test]
fn tmux_is_run_only_from_fixed_locations() {
    assert_eq!(
        tmux_executable_candidates(),
        ["/opt/homebrew/bin/tmux", "/usr/local/bin/tmux", "/usr/bin/tmux"]
    );
}

#[test]
fn only_absolute_socket_fields_are_used() {
    assert_eq!(socket_if_absolute("/tmp/sock", true), Some("/tmp/sock"));
    assert_eq!(socket_if_absolute("/tmp/sock", false), None);
}
