//! Presentation policy for web-link destinations in rendered Markdown.
//!
//! Terminal identity is a conservative heuristic, not end-to-end capability
//! negotiation. Unknown terminals keep the destination visible, so a label never
//! hides the only usable URL. Under tmux, label-only presentation is chosen only
//! after a successful capability probe of the attached clients.

use vstd::prelude::*;

use crate::text::{chars_of, has_prefix, range_equals, range_starts_with};
use crate::tmux_hyperlinks::{dumb_term, screen_term_prefix, tmux_term_prefix, TmuxHyperlinks};

verus! {

/// The terminal emulator the program runs in, as detected from the environment.
#[derive(Clone, Copy, Debug, PartialEq, Eq, Structural)]
pub enum TerminalName {
    Ghostty,
    Iterm2,
    WezTerm,
    Kitty,
    VsCode,
    Alacritty,
    WindowsTerminal,
    Konsole,
    GnomeTerminal,
    Vte,
    AppleTerminal,
    WarpTerminal,
    Dumb,
    Unknown,
}

/// A terminal multiplexer between the program and the terminal emulator.
#[derive(Clone, Copy, Debug, PartialEq, Eq, Structural)]
pub enum Multiplexer {
    Tmux,
    Zellij,
}

/// What is known of the terminal: its emulator and the multiplexer, if any.
#[derive(Clone, Copy, Debug, PartialEq, Eq, Structural)]
pub struct TerminalInfo {
    pub name: TerminalName,
    pub multiplexer: Option<Multiplexer>,
}

/// How web links are presented: the styled label alone (the terminal makes it
/// clickable) or the label followed by the visible destination.
#[derive(Clone, Copy, Debug, PartialEq, Eq, Structural)]
pub enum WebLinkDisplay {
    LabelOnly,
    WithDestination,
}

/// What the process can tell of its session without asking the terminal.
#[derive(Clone, Copy, Debug, PartialEq, Eq, Structural)]
pub struct SessionEnvironment {
    /// Standard output is a terminal.
    pub stdout_is_terminal: bool,
    /// `STY` is set: running inside GNU screen.
    pub sty_set: bool,
    /// `ZELLIJ` is set.
    pub zellij_set: bool,
    /// `ZELLIJ_SESSION_NAME` is set.
    pub zellij_session_name_set: bool,
    /// `ZELLIJ_VERSION` is set.
    pub zellij_version_set: bool,
}

/// Terminal emulators known to render OSC 8 hyperlinks.
pub open spec fn renders_hyperlinks(name: TerminalName) -> bool {
    match name {
        TerminalName::Ghostty | TerminalName::Iterm2 | TerminalName::WezTerm | TerminalName::Kitty
        | TerminalName::VsCode | TerminalName::Alacritty | TerminalName::WindowsTerminal
        | TerminalName::Konsole | TerminalName::GnomeTerminal | TerminalName::Vte => true,
        TerminalName::AppleTerminal | TerminalName::WarpTerminal | TerminalName::Dumb
        | TerminalName::Unknown => false,
    }
}

/// The presentation for a terminal, given `TERM` and the outcome of the tmux probe:
/// a `dumb` `TERM` keeps destinations; tmux with every client confirmed shows
/// labels only; any other multiplexer, or a screen or tmux `TERM`, keeps
/// destinations; otherwise the emulator decides.
pub open spec fn spec_for_terminal(
    terminal: TerminalInfo,
    term: Option<Seq<char>>,
    tmux_hyperlinks: TmuxHyperlinks,
) -> WebLinkDisplay {
    if term == Some(dumb_term()) {
        WebLinkDisplay::WithDestination
    } else if terminal.multiplexer == Some(Multiplexer::Tmux) && tmux_hyperlinks
        == TmuxHyperlinks::Supported {
        WebLinkDisplay::LabelOnly
    } else if terminal.multiplexer is Some || (term matches Some(t) && (has_prefix(
        t,
        screen_term_prefix(),
    ) || has_prefix(t, tmux_term_prefix()))) {
        WebLinkDisplay::WithDestination
    } else if renders_hyperlinks(terminal.name) {
        WebLinkDisplay::LabelOnly
    } else {
        WebLinkDisplay::WithDestination
    }
}

/// `s` starts with the characters of `lower`, each matched either as is or as
/// the character at the same place in `upper`.
pub open spec fn has_prefix_either_case(s: Seq<char>, lower: Seq<char>, upper: Seq<char>) -> bool {
    &&& lower.len() <= s.len()
    &&& forall|i: int| 0 <= i < lower.len() ==> s[i] == lower[i] || s[i] == upper[i]
}

/// `http://` in lower case.
pub open spec fn http_lower() -> Seq<char> {
    seq!['h', 't', 't', 'p', ':', '/', '/']
}

/// `HTTP://` in upper case.
pub open spec fn http_upper() -> Seq<char> {
    seq!['H', 'T', 'T', 'P', ':', '/', '/']
}

/// `https://` in lower case.
pub open spec fn https_lower() -> Seq<char> {
    seq!['h', 't', 't', 'p', 's', ':', '/', '/']
}

/// `HTTPS://` in upper case.
pub open spec fn https_upper() -> Seq<char> {
    seq!['H', 'T', 'T', 'P', 'S', ':', '/', '/']
}

/// A link destination that a browser opens: an `http` or `https` URL (scheme in
/// any ASCII case) with something after `://`.
pub open spec fn is_web_destination(destination: Seq<char>) -> bool {
    ||| has_prefix_either_case(destination, http_lower(), http_upper()) && destination.len() > 7
    ||| has_prefix_either_case(destination, https_lower(), https_upper()) && destination.len() > 8
}

/// Whether a link with this destination is shown by its label alone.
pub open spec fn spec_hides_destination(display: WebLinkDisplay, destination: Seq<char>) -> bool {
    display == WebLinkDisplay::LabelOnly && is_web_destination(destination)
}

/// The presentation for the session: destinations stay visible when output is
/// not a terminal or runs inside GNU screen; otherwise as [`spec_for_terminal`].
pub open spec fn spec_display_for_session(
    env: SessionEnvironment,
    terminal: TerminalInfo,
    term: Option<Seq<char>>,
    tmux_hyperlinks: TmuxHyperlinks,
) -> WebLinkDisplay {
    if !env.stdout_is_terminal || env.sty_set {
        WebLinkDisplay::WithDestination
    } else {
        spec_for_terminal(terminal, term, tmux_hyperlinks)
    }
}

/// The tmux clients are probed only from an interactive tmux session that is
/// not nested in screen or zellij.
pub open spec fn spec_should_probe_tmux(env: SessionEnvironment, terminal: TerminalInfo) -> bool {
    &&& env.stdout_is_terminal
    &&& !env.sty_set
    &&& !env.zellij_set
    &&& !env.zellij_session_name_set
    &&& !env.zellij_version_set
    &&& terminal.multiplexer == Some(Multiplexer::Tmux)
}

/// Keeping destinations visible never hides a link's destination.
pub proof fn law_with_destination_never_hides(destination: Seq<char>)
    ensures
        !spec_hides_destination(WebLinkDisplay::WithDestination, destination),
{
}

/// Links that are not web links (files, `mailto:`) keep their destination under
/// every presentation.
pub proof fn law_non_web_links_keep_destinations(display: WebLinkDisplay, destination: Seq<char>)
    requires
        !is_web_destination(destination),
    ensures
        !spec_hides_destination(display, destination),
{
}

/// Label-only presentation hides exactly the web destinations.
pub proof fn law_label_only_hides_web_destinations(destination: Seq<char>)
    ensures
        spec_hides_destination(WebLinkDisplay::LabelOnly, destination) == is_web_destination(
            destination,
        ),
{
}

/// A `dumb` `TERM` keeps destinations visible, whatever the terminal and the probe.
pub proof fn law_dumb_term_keeps_destinations(terminal: TerminalInfo, tmux_hyperlinks: TmuxHyperlinks)
    ensures
        spec_for_terminal(terminal, Some(dumb_term()), tmux_hyperlinks)
            == WebLinkDisplay::WithDestination,
{
}

/// Under any multiplexer, destinations stay visible unless the tmux probe
/// confirmed every client: an unavailable or failed probe keeps them.
pub proof fn law_unconfirmed_multiplexer_keeps_destinations(
    terminal: TerminalInfo,
    term: Option<Seq<char>>,
)
    requires
        terminal.multiplexer is Some,
    ensures
        spec_for_terminal(terminal, term, TmuxHyperlinks::Unknown)
            == WebLinkDisplay::WithDestination,
{
}

/// A successful tmux probe does not change the presentation outside tmux
/// (another multiplexer, or none).
pub proof fn law_probe_applies_only_under_tmux(terminal: TerminalInfo, term: Option<Seq<char>>)
    requires
        terminal.multiplexer != Some(Multiplexer::Tmux),
    ensures
        spec_for_terminal(terminal, term, TmuxHyperlinks::Supported) == spec_for_terminal(
            terminal,
            term,
            TmuxHyperlinks::Unknown,
        ),
{
}

/// A successful probe can only turn visible destinations into labels, never
/// the other way round.
pub proof fn law_probe_never_reveals_destinations(terminal: TerminalInfo, term: Option<Seq<char>>)
    requires
        spec_for_terminal(terminal, term, TmuxHyperlinks::Unknown) == WebLinkDisplay::LabelOnly,
    ensures
        spec_for_terminal(terminal, term, TmuxHyperlinks::Supported) == WebLinkDisplay::LabelOnly,
{
}

/// Outside any multiplexer and with a `TERM` that is not `dumb`, screen or
/// tmux, the emulator alone decides: labels only for emulators known to render
/// hyperlinks, visible destinations for all others.
pub proof fn law_emulator_decides_outside_multiplexers(
    terminal: TerminalInfo,
    term: Option<Seq<char>>,
    tmux_hyperlinks: TmuxHyperlinks,
)
    requires
        terminal.multiplexer is None,
        term matches Some(t) ==> t != dumb_term() && !has_prefix(t, screen_term_prefix())
            && !has_prefix(t, tmux_term_prefix()),
    ensures
        spec_for_terminal(terminal, term, tmux_hyperlinks) == if renders_hyperlinks(terminal.name) {
            WebLinkDisplay::LabelOnly
        } else {
            WebLinkDisplay::WithDestination
        },
{
}

/// When output is not a terminal, or runs inside GNU screen, destinations stay visible.
pub proof fn law_pipes_and_screen_keep_destinations(
    env: SessionEnvironment,
    terminal: TerminalInfo,
    term: Option<Seq<char>>,
    tmux_hyperlinks: TmuxHyperlinks,
)
    requires
        !env.stdout_is_terminal || env.sty_set,
    ensures
        spec_display_for_session(env, terminal, term, tmux_hyperlinks)
            == WebLinkDisplay::WithDestination,
{
}

/// Under tmux, once the probe confirmed every client, links show their labels
/// only, whatever the emulator and whatever `TERM` says, unless `TERM` is `dumb`.
pub proof fn law_confirmed_tmux_shows_labels_only(name: TerminalName, term: Option<Seq<char>>)
    requires
        term != Some(seq!['d', 'u', 'm', 'b']),
    ensures
        spec_for_terminal(
            TerminalInfo { name, multiplexer: Some(Multiplexer::Tmux) },
            term,
            TmuxHyperlinks::Supported,
        ) == WebLinkDisplay::LabelOnly,
{
    assert(seq!['d', 'u', 'm', 'b'] == dumb_term());
}

/// In an interactive session outside GNU screen, the session's presentation is
/// the terminal's presentation under the same probe result; in particular a
/// confirmed tmux session shows labels only.
pub proof fn law_interactive_session_follows_terminal(
    env: SessionEnvironment,
    terminal: TerminalInfo,
    term: Option<Seq<char>>,
    tmux_hyperlinks: TmuxHyperlinks,
)
    requires
        env.stdout_is_terminal,
        !env.sty_set,
    ensures
        spec_display_for_session(env, terminal, term, tmux_hyperlinks) == spec_for_terminal(
            terminal,
            term,
            tmux_hyperlinks,
        ),
        terminal.multiplexer == Some(Multiplexer::Tmux) && tmux_hyperlinks
            == TmuxHyperlinks::Supported && term != Some(seq!['d', 'u', 'm', 'b'])
            ==> spec_display_for_session(env, terminal, term, tmux_hyperlinks)
            == WebLinkDisplay::LabelOnly,
{
    assert(seq!['d', 'u', 'm', 'b'] == dumb_term());
}

/// Any `http://` or `https://` scheme, in any mix of ASCII case, followed by any
/// non-empty text (paths, queries, fragments alike) is a web destination.
pub proof fn law_web_schemes_with_anything_after(scheme: Seq<char>, rest: Seq<char>)
    requires
        rest.len() > 0,
        ({
            ||| scheme.len() == 7 && forall|i: int|
                0 <= i < 7 ==> #[trigger] scheme[i] == seq!['h', 't', 't', 'p', ':', '/', '/'][i]
                    || scheme[i] == seq!['H', 'T', 'T', 'P', ':', '/', '/'][i]
            ||| scheme.len() == 8 && forall|i: int|
                0 <= i < 8 ==> #[trigger] scheme[i] == seq!['h', 't', 't', 'p', 's', ':', '/', '/'][i]
                    || scheme[i] == seq!['H', 'T', 'T', 'P', 'S', ':', '/', '/'][i]
        }),
    ensures
        is_web_destination(scheme + rest),
{
    let d = scheme + rest;
    if scheme.len() == 7 {
        assert forall|i: int| 0 <= i < http_lower().len() implies d[i] == http_lower()[i] || d[i]
            == http_upper()[i] by {
            assert(d[i] == scheme[i]);
            assert(scheme[i] == seq!['h', 't', 't', 'p', ':', '/', '/'][i] || scheme[i]
                == seq!['H', 'T', 'T', 'P', ':', '/', '/'][i]);
        }
        assert(has_prefix_either_case(d, http_lower(), http_upper()));
    } else {
        assert forall|i: int| 0 <= i < https_lower().len() implies d[i] == https_lower()[i] || d[i]
            == https_upper()[i] by {
            assert(d[i] == scheme[i]);
            assert(scheme[i] == seq!['h', 't', 't', 'p', 's', ':', '/', '/'][i] || scheme[i]
                == seq!['H', 'T', 'T', 'P', 'S', ':', '/', '/'][i]);
        }
        assert(has_prefix_either_case(d, https_lower(), https_upper()));
    }
}

/// Whether `s[start..end]` begins with `lower`, each character matched in
/// either of its two cases.
fn range_starts_with_either_case(
    s: &Vec<char>,
    start: usize,
    end: usize,
    lower: &[char],
    upper: &[char],
) -> (res: bool)
    requires
        start <= end <= s@.len(),
        lower@.len() == upper@.len(),
    ensures
        res == has_prefix_either_case(s@.subrange(start as int, end as int), lower@, upper@),
{
    if end - start < lower.len() {
        return false;
    }
    let mut i: usize = 0;
    while i < lower.len()
        invariant
            start <= end <= s@.len(),
            lower@.len() == upper@.len() <= end - start,
            i <= lower@.len(),
            forall|k: int| 0 <= k < i ==> s@[start + k] == lower@[k] || s@[start + k] == upper@[k],
        decreases lower@.len() - i,
    {
        let c = s[start + i];
        if c != lower[i] && c != upper[i] {
            proof {
                assert(s@.subrange(start as int, end as int)[i as int] == c);
            }
            return false;
        }
        i = i + 1;
    }
    proof {
        let sub = s@.subrange(start as int, end as int);
        assert forall|k: int| 0 <= k < lower@.len() implies sub[k] == lower@[k] || sub[k]
            == upper@[k] by {
            assert(sub[k] == s@[start + k]);
        }
    }
    true
}

/// Whether a link destination is an `http` or `https` URL (see [`is_web_destination`]).
pub fn web_destination(destination: &str) -> (res: bool)
    ensures
        res == is_web_destination(destination@),
{
    let chars = chars_of(destination);
    let len = chars.len();
    proof {
        assert(chars@.subrange(0, len as int) =~= chars@);
        assert(['h', 't', 't', 'p', ':', '/', '/']@ =~= http_lower());
        assert(['H', 'T', 'T', 'P', ':', '/', '/']@ =~= http_upper());
        assert(['h', 't', 't', 'p', 's', ':', '/', '/']@ =~= https_lower());
        assert(['H', 'T', 'T', 'P', 'S', ':', '/', '/']@ =~= https_upper());
    }
    let http = len > 7 && range_starts_with_either_case(
        &chars,
        0,
        len,
        &['h', 't', 't', 'p', ':', '/', '/'],
        &['H', 'T', 'T', 'P', ':', '/', '/'],
    );
    let https = len > 8 && range_starts_with_either_case(
        &chars,
        0,
        len,
        &['h', 't', 't', 'p', 's', ':', '/', '/'],
        &['H', 'T', 'T', 'P', 'S', ':', '/', '/'],
    );
    http || https
}

impl TerminalName {
    /// Whether this emulator is known to render OSC 8 hyperlinks.
    pub fn renders_hyperlinks(self) -> (res: bool)
        ensures
            res == renders_hyperlinks(self),
    {
        match self {
            TerminalName::Ghostty | TerminalName::Iterm2 | TerminalName::WezTerm
            | TerminalName::Kitty | TerminalName::VsCode | TerminalName::Alacritty
            | TerminalName::WindowsTerminal | TerminalName::Konsole | TerminalName::GnomeTerminal
            | TerminalName::Vte => true,
            TerminalName::AppleTerminal | TerminalName::WarpTerminal | TerminalName::Dumb
            | TerminalName::Unknown => false,
        }
    }
}

impl WebLinkDisplay {
    /// The presentation for a terminal, given the value of `TERM` and the
    /// outcome of the tmux capability probe (see [`spec_for_terminal`]).
    pub fn for_terminal(
        terminal: &TerminalInfo,
        term: Option<&str>,
        tmux_hyperlinks: TmuxHyperlinks,
    ) -> (res: Self)
        ensures
            res == spec_for_terminal(
                *terminal,
                match term {
                    Some(t) => Some(t@),
                    None => None,
                },
                tmux_hyperlinks,
            ),
    {
        let ghost term_view: Option<Seq<char>> = match term {
            Some(t) => Some(t@),
            None => None,
        };
        let (is_dumb, is_screen_or_tmux) = match term {
            Some(t) => {
                let chars = chars_of(t);
                let len = chars.len();
                proof {
                    assert(chars@.subrange(0, len as int) =~= chars@);
                    assert(['d', 'u', 'm', 'b']@ =~= dumb_term());
                    assert(['t', 'm', 'u', 'x']@ =~= tmux_term_prefix());
                    assert(['s', 'c', 'r', 'e', 'e', 'n']@ =~= screen_term_prefix());
                }
                (
                    range_equals(&chars, 0, len, &['d', 'u', 'm', 'b']),
                    range_starts_with(&chars, 0, len, &['s', 'c', 'r', 'e', 'e', 'n'])
                        || range_starts_with(&chars, 0, len, &['t', 'm', 'u', 'x']),
                )
            },
            None => (false, false),
        };
        if is_dumb {
            return WebLinkDisplay::WithDestination;
        }
        let under_tmux = match terminal.multiplexer {
            Some(Multiplexer::Tmux) => true,
            _ => false,
        };
        let probe_succeeded = match tmux_hyperlinks {
            TmuxHyperlinks::Supported => true,
            TmuxHyperlinks::Unknown => false,
        };
        if under_tmux && probe_succeeded {
            return WebLinkDisplay::LabelOnly;
        }
        if terminal.multiplexer.is_some() || is_screen_or_tmux {
            return WebLinkDisplay::WithDestination;
        }
        if terminal.name.renders_hyperlinks() {
            WebLinkDisplay::LabelOnly
        } else {
            WebLinkDisplay::WithDestination
        }
    }

    /// Whether a link with this destination is shown by its label alone: only
    /// web destinations, and only under [`WebLinkDisplay::LabelOnly`].
    pub fn hide_destination(self, destination: &str) -> (res: bool)
        ensures
            res == spec_hides_destination(self, destination@),
    {
        let label_only = match self {
            WebLinkDisplay::LabelOnly => true,
            WebLinkDisplay::WithDestination => false,
        };
        label_only && web_destination(destination)
    }
}

/// The presentation for the session (see [`spec_display_for_session`]).
pub fn display_for_session(
    env: &SessionEnvironment,
    terminal: &TerminalInfo,
    term: Option<&str>,
    tmux_hyperlinks: TmuxHyperlinks,
) -> (res: WebLinkDisplay)
    ensures
        res == spec_display_for_session(
            *env,
            *terminal,
            match term {
                Some(t) => Some(t@),
                None => None,
            },
            tmux_hyperlinks,
        ),
{
    if !env.stdout_is_terminal || env.sty_set {
        return WebLinkDisplay::WithDestination;
    }
    WebLinkDisplay::for_terminal(terminal, term, tmux_hyperlinks)
}

/// Whether the attached tmux clients should be probed at startup (see
/// [`spec_should_probe_tmux`]).
pub fn should_probe_tmux(env: &SessionEnvironment, terminal: &TerminalInfo) -> (res: bool)
    ensures
        res == spec_should_probe_tmux(*env, *terminal),
{
    let under_tmux = match terminal.multiplexer {
        Some(Multiplexer::Tmux) => true,
        _ => false,
    };
    env.stdout_is_terminal && !env.sty_set && !env.zellij_set && !env.zellij_session_name_set
        && !env.zellij_version_set && under_tmux
}

} // verus!
