use web_links::tmux_hyperlinks::TmuxHyperlinks;
use web_links::web_links::{
    display_for_session, should_probe_tmux, web_destination, Multiplexer, SessionEnvironment,
    TerminalInfo, TerminalName, WebLinkDisplay,
};

fn terminal(name: TerminalName) -> TerminalInfo {
    TerminalInfo { name, multiplexer: None }
}

fn interactive() -> SessionEnvironment {
    SessionEnvironment {
        stdout_is_terminal: true,
        sty_set: false,
        zellij_set: false,
        zellij_session_name_set: false,
        zellij_version_set: false,
    }
}

const SUPPORTING: [TerminalName; 10] = [
    TerminalName::Ghostty,
    TerminalName::Iterm2,
    TerminalName::WezTerm,
    TerminalName::Kitty,
    TerminalName::VsCode,
    TerminalName::Alacritty,
    TerminalName::WindowsTerminal,
    TerminalName::Konsole,
    TerminalName::GnomeTerminal,
    TerminalName::Vte,
];

#[test]
fn supporting_terminals_show_labels_only() {
    for name in SUPPORTING {
        let display =
            WebLinkDisplay::for_terminal(&terminal(name), None, TmuxHyperlinks::Unknown);
        assert_eq!(display, WebLinkDisplay::LabelOnly, "terminal: {name:?}");
        assert!(display.hide_destination("https://example.com"));
    }
}

#[test]
fn unknown_terminals_and_multiplexers_keep_destinations() {
    let mut tmux = terminal(TerminalName::Ghostty);
    tmux.multiplexer = Some(Multiplexer::Tmux);
    let mut zellij = terminal(TerminalName::Ghostty);
    zellij.multiplexer = Some(Multiplexer::Zellij);
    for (terminal, term) in [
        (terminal(TerminalName::Unknown), None),
        (terminal(TerminalName::AppleTerminal), None),
        (terminal(TerminalName::WarpTerminal), None),
        (terminal(TerminalName::Dumb), None),
        (tmux, None),
        (zellij, None),
        (terminal(TerminalName::Ghostty), Some("screen-256color")),
        (terminal(TerminalName::Ghostty), Some("tmux-256color")),
        (terminal(TerminalName::Ghostty), Some("dumb")),
    ] {
        let display = WebLinkDisplay::for_terminal(&terminal, term, TmuxHyperlinks::Unknown);
        assert_eq!(display, WebLinkDisplay::WithDestination);
        assert!(!display.hide_destination("https://example.com"));
    }
}

#[test]
fn ordinary_term_values_leave_the_choice_to_the_emulator() {
    let ghostty = terminal(TerminalName::Ghostty);
    for term in ["xterm-ghostty", "xterm-256color", "dumb-ish", "screen"] {
        let expected = if term == "screen" {
            WebLinkDisplay::WithDestination
        } else {
            WebLinkDisplay::LabelOnly
        };
        assert_eq!(
            WebLinkDisplay::for_terminal(&ghostty, Some(term), TmuxHyperlinks::Unknown),
            expected,
            "term: {term}"
        );
    }
}

#[test]
fn label_only_keeps_non_web_destinations() {
    let display = WebLinkDisplay::LabelOnly;
    assert!(!display.hide_destination("./src/main.rs"));
    assert!(!display.hide_destination("mailto:a@example.com"));
    assert!(!display.hide_destination("ftp://example.com"));
    assert!(display.hide_destination("https://example.com"));
    assert!(display.hide_destination("http://example.com/code"));
    assert!(display.hide_destination("HTTPS://example.com"));
    for destination in ["https://example.com", "./src/main.rs", "mailto:a@example.com"] {
        assert!(!WebLinkDisplay::WithDestination.hide_destination(destination));
    }
}

#[test]
fn web_destinations_need_a_scheme_and_more() {
    assert!(web_destination("https://example.com"));
    assert!(web_destination("http://x"));
    assert!(web_destination("HtTp://x"));
    assert!(!web_destination("http://"));
    assert!(!web_destination("https://"));
    assert!(!web_destination("https:/example.com"));
    assert!(!web_destination("example.com"));
    assert!(!web_destination(""));
    assert!(!web_destination(" https://example.com"));
}

#[test]
fn tmux_probe_decides_label_only_under_tmux() {
    let mut tmux = terminal(TerminalName::Unknown);
    tmux.multiplexer = Some(Multiplexer::Tmux);
    for term in ["tmux-256color", "screen-256color"] {
        for (support, expected) in [
            (TmuxHyperlinks::Supported, WebLinkDisplay::LabelOnly),
            (TmuxHyperlinks::Unknown, WebLinkDisplay::WithDestination),
        ] {
            assert_eq!(
                WebLinkDisplay::for_terminal(&tmux, Some(term), support),
                expected,
                "term: {term}"
            );
        }
    }
}

#[test]
fn tmux_probe_does_not_override_other_multiplexers_or_dumb_terminals() {
    let mut zellij = terminal(TerminalName::Ghostty);
    zellij.multiplexer = Some(Multiplexer::Zellij);
    let mut tmux = terminal(TerminalName::Ghostty);
    tmux.multiplexer = Some(Multiplexer::Tmux);
    for (terminal, term) in [(zellij, None), (tmux, Some("dumb"))] {
        assert_eq!(
            WebLinkDisplay::for_terminal(&terminal, term, TmuxHyperlinks::Supported),
            WebLinkDisplay::WithDestination
        );
    }
    // Outside a multiplexer the probe changes nothing.
    for name in [TerminalName::Ghostty, TerminalName::Unknown] {
        assert_eq!(
            WebLinkDisplay::for_terminal(&terminal(name), None, TmuxHyperlinks::Supported),
            WebLinkDisplay::for_terminal(&terminal(name), None, TmuxHyperlinks::Unknown)
        );
    }
}

#[test]
fn pipes_and_screen_sessions_keep_destinations() {
    let ghostty = terminal(TerminalName::Ghostty);
    let env = interactive();
    assert_eq!(
        display_for_session(&env, &ghostty, None, TmuxHyperlinks::Unknown),
        WebLinkDisplay::LabelOnly
    );
    let piped = SessionEnvironment { stdout_is_terminal: false, ..env };
    assert_eq!(
        display_for_session(&piped, &ghostty, None, TmuxHyperlinks::Unknown),
        WebLinkDisplay::WithDestination
    );
    let screen = SessionEnvironment { sty_set: true, ..env };
    assert_eq!(
        display_for_session(&screen, &ghostty, None, TmuxHyperlinks::Supported),
        WebLinkDisplay::WithDestination
    );
}

#[test]
fn tmux_is_probed_only_from_a_plain_interactive_tmux_session() {
    let mut tmux = terminal(TerminalName::Ghostty);
    tmux.multiplexer = Some(Multiplexer::Tmux);
    let env = interactive();
    assert!(should_probe_tmux(&env, &tmux));
    assert!(!should_probe_tmux(&env, &terminal(TerminalName::Ghostty)));
    let mut zellij = tmux;
    zellij.multiplexer = Some(Multiplexer::Zellij);
    assert!(!should_probe_tmux(&env, &zellij));
    for changed in [
        SessionEnvironment { stdout_is_terminal: false, ..env },
        SessionEnvironment { sty_set: true, ..env },
        SessionEnvironment { zellij_set: true, ..env },
        SessionEnvironment { zellij_session_name_set: true, ..env },
        SessionEnvironment { zellij_version_set: true, ..env },
    ] {
        assert!(!should_probe_tmux(&changed, &tmux));
    }
}
