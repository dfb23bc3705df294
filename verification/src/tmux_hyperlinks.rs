//! Deciding whether the clients attached to a tmux server can show terminal
//! hyperlinks, from the output of `tmux list-clients`.
//!
//! Every attached client must report the `hyperlinks` feature; a nested
//! multiplexer, a `dumb` terminal, malformed output or a failed query leave the
//! answer at [`TmuxHyperlinks::Unknown`], so that visible URLs are kept.

use vstd::prelude::*;
use vstd::string::{StrSliceExecFns, StringSliceAdditionalSpecFns};
use vstd::utf8::{decode_utf8, encode_utf8_decode_utf8, valid_utf8};

use crate::text::{has_prefix, lemma_split_on_extend_last, lemma_split_on_nonempty, split_on, split_ranges, chars_of, range_equals, range_starts_with};

verus! {

/// Whether every client attached to the tmux server reports hyperlink support.
#[derive(Clone, Copy, Debug, PartialEq, Eq, Structural)]
pub enum TmuxHyperlinks {
    Supported,
    Unknown,
}

/// The terminal name `dumb`.
pub open spec fn dumb_term() -> Seq<char> {
    seq!['d', 'u', 'm', 'b']
}

/// Terminal names that start with this belong to tmux itself.
pub open spec fn tmux_term_prefix() -> Seq<char> {
    seq!['t', 'm', 'u', 'x']
}

/// Terminal names that start with this belong to GNU screen.
pub open spec fn screen_term_prefix() -> Seq<char> {
    seq!['s', 'c', 'r', 'e', 'e', 'n']
}

/// The tmux terminal feature that announces OSC 8 hyperlink support.
pub open spec fn hyperlinks_feature() -> Seq<char> {
    seq!['h', 'y', 'p', 'e', 'r', 'l', 'i', 'n', 'k', 's']
}

/// A line without one carriage return that ended it.
pub open spec fn strip_cr(line: Seq<char>) -> Seq<char> {
    if line.len() > 0 && line.last() == '\r' {
        line.drop_last()
    } else {
        line
    }
}

/// The lines of `s`, as `str::lines` gives them: split at `'\n'`, a `'\r'`
/// directly before a `'\n'` dropped, and no empty line after a final `'\n'`.
pub open spec fn output_lines(s: Seq<char>) -> Seq<Seq<char>> {
    let pieces = split_on(s, '\n');
    let n = pieces.len() as int;
    let ended = Seq::new((n - 1) as nat, |k: int| strip_cr(pieces[k]));
    if pieces[n - 1].len() == 0 {
        ended
    } else {
        ended.push(pieces[n - 1])
    }
}

/// How the lines of `s` arise from the pieces between its newlines.
pub proof fn lemma_output_lines(s: Seq<char>)
    ensures
        split_on(s, '\n').len() >= 1,
        ({
            let pieces = split_on(s, '\n');
            let n = pieces.len() as int;
            let lines = output_lines(s);
            &&& lines.len() == if pieces[n - 1].len() == 0 { n - 1 } else { n }
            &&& forall|k: int| 0 <= k < n - 1 ==> lines[k] == strip_cr(#[trigger] pieces[k])
            &&& pieces[n - 1].len() != 0 ==> lines[n - 1] == pieces[n - 1]
        }),
{
    lemma_split_on_nonempty(s, '\n');
}

/// A client terminal name that can show hyperlinks: not empty, not `dumb`,
/// and not a nested tmux or screen.
pub open spec fn term_may_show_links(term: Seq<char>) -> bool {
    &&& term.len() > 0
    &&& term != dumb_term()
    &&& !has_prefix(term, tmux_term_prefix())
    &&& !has_prefix(term, screen_term_prefix())
}

/// One line of `list-clients` output, `TERMNAME<TAB>FEATURES`, reports a
/// client that shows hyperlinks: it has a tab, the name before the first tab
/// may show links, and `hyperlinks` is one of the comma-separated features after it.
pub open spec fn client_reports_hyperlinks(line: Seq<char>) -> bool {
    match line.index_of_first('\t') {
        None => false,
        Some(t) => term_may_show_links(line.take(t)) && split_on(line.skip(t + 1), ',').contains(
            hyperlinks_feature(),
        ),
    }
}

/// The verdict on the output of `tmux list-clients`: supported when there is at
/// least one client line and every one reports hyperlinks.
pub open spec fn spec_parse_clients(output: Seq<char>) -> TmuxHyperlinks {
    let lines = output_lines(output);
    if lines.len() > 0 && forall|k: int| 0 <= k < lines.len() ==> client_reports_hyperlinks(#[trigger] lines[k]) {
        TmuxHyperlinks::Supported
    } else {
        TmuxHyperlinks::Unknown
    }
}

/// Whether the client line `chars[start..end]` reports hyperlinks.
fn client_reports_hyperlinks_in(chars: &Vec<char>, start: usize, end: usize) -> (res: bool)
    requires
        start <= end <= chars@.len(),
    ensures
        res == client_reports_hyperlinks(chars@.subrange(start as int, end as int)),
{
    let ghost line = chars@.subrange(start as int, end as int);
    let mut t: usize = start;
    while t < end && chars[t] != '\t'
        invariant
            start <= t <= end <= chars@.len(),
            forall|k: int| start <= k < t ==> chars@[k] != '\t',
        decreases end - t,
    {
        t = t + 1;
    }
    proof {
        line.index_of_first_ensures('\t');
    }
    if t == end {
        proof {
            assert(!line.contains('\t')) by {
                assert forall|k: int| 0 <= k < line.len() implies line[k] != '\t' by {
                    assert(chars@[start + k] != '\t');
                }
            }
        }
        return false;
    }
    let ghost ti = (t - start) as int;
    proof {
        assert(line[ti] == '\t');
        assert(line.index_of_first('\t') == Some(ti)) by {
            let found = line.index_of_first('\t').unwrap();
            if found < ti {
                assert(chars@[start + found] != '\t');
            }
        }
        assert(line.take(ti) =~= chars@.subrange(start as int, t as int));
        assert(line.skip(ti + 1) =~= chars@.subrange(t + 1, end as int));
    }
    let term_ok = t > start && !range_equals(chars, start, t, &['d', 'u', 'm', 'b'])
        && !range_starts_with(chars, start, t, &['t', 'm', 'u', 'x'])
        && !range_starts_with(chars, start, t, &['s', 'c', 'r', 'e', 'e', 'n']);
    proof {
        assert(['d', 'u', 'm', 'b']@ =~= dumb_term());
        assert(['t', 'm', 'u', 'x']@ =~= tmux_term_prefix());
        assert(['s', 'c', 'r', 'e', 'e', 'n']@ =~= screen_term_prefix());
    }
    if !term_ok {
        return false;
    }
    let fields = split_ranges(chars, t + 1, end, ',');
    let ghost pieces = split_on(chars@.subrange(t + 1, end as int), ',');
    assert(client_reports_hyperlinks(line) == pieces.contains(hyperlinks_feature()));
    let mut k: usize = 0;
    while k < fields.len()
        invariant
            fields@.len() == pieces.len(),
            forall|j: int|
                0 <= j < fields@.len() ==> {
                    &&& t + 1 <= (#[trigger] fields@[j]).0 <= fields@[j].1 <= end
                    &&& chars@.subrange(fields@[j].0 as int, fields@[j].1 as int) == pieces[j]
                },
            end <= chars@.len(),
            k <= fields@.len(),
            forall|j: int| 0 <= j < k ==> pieces[j] != hyperlinks_feature(),
            line == chars@.subrange(start as int, end as int),
            client_reports_hyperlinks(line) == pieces.contains(hyperlinks_feature()),
        decreases fields@.len() - k,
    {
        let (a, b) = fields[k];
        if range_equals(chars, a, b, &['h', 'y', 'p', 'e', 'r', 'l', 'i', 'n', 'k', 's']) {
            proof {
                assert(['h', 'y', 'p', 'e', 'r', 'l', 'i', 'n', 'k', 's']@ =~= hyperlinks_feature());
                assert(pieces[k as int] == hyperlinks_feature());
                assert(pieces.contains(hyperlinks_feature()));
            }
            return true;
        }
        k = k + 1;
    }
    false
}

/// The comma-separated list of `fields`, as tmux prints client features.
pub open spec fn join_with_commas(fields: Seq<Seq<char>>) -> Seq<char>
    decreases fields.len(),
{
    if fields.len() == 0 {
        Seq::empty()
    } else if fields.len() == 1 {
        fields[0]
    } else {
        join_with_commas(fields.drop_last()) + seq![','] + fields.last()
    }
}

/// A client line `name<TAB>features`, where the name holds no tab, is read with
/// exactly that name and those features.
proof fn lemma_client_line_parts(name: Seq<char>, features: Seq<char>)
    requires
        !name.contains('\t'),
    ensures
        client_reports_hyperlinks(name + seq!['\t'] + features) == (term_may_show_links(name)
            && split_on(features, ',').contains(hyperlinks_feature())),
{
    let line = name + seq!['\t'] + features;
    let t = name.len() as int;
    line.index_of_first_ensures('\t');
    assert(line[t] == '\t');
    assert(line.index_of_first('\t') == Some(t)) by {
        let found = line.index_of_first('\t').unwrap();
        if found < t {
            assert(line[found] == name[found]);
            assert(name.contains('\t'));
        }
    }
    assert(line.take(t) =~= name);
    assert(line.skip(t + 1) =~= features);
}

/// Splitting `features,feature` at commas adds `feature` as the last field, when
/// `feature` holds no comma.
proof fn lemma_split_append_field(features: Seq<char>, feature: Seq<char>)
    requires
        !feature.contains(','),
    ensures
        split_on(features + seq![','] + feature, ',') == split_on(features, ',').push(feature),
{
    let with_comma = features + seq![','];
    assert(with_comma.drop_last() =~= features);
    assert(with_comma.last() == ',');
    lemma_split_on_extend_last(with_comma, feature, ',');
    let p = split_on(features, ',');
    assert(split_on(with_comma, ',') == p.push(Seq::empty()));
    assert(Seq::<char>::empty() + feature =~= feature);
    assert(p.push(Seq::empty()).update(p.len() as int, feature) =~= p.push(feature));
}

/// Adding one more feature to a client line: the line then reports hyperlinks
/// exactly when it did before, or the new feature is `hyperlinks` and the
/// terminal name is acceptable (not empty, not `dumb`, not tmux or screen).
/// Whatever its position in the list, `hyperlinks` is seen.
pub proof fn law_appending_a_feature(name: Seq<char>, features: Seq<char>, feature: Seq<char>)
    requires
        !name.contains('\t'),
        !feature.contains(','),
    ensures
        client_reports_hyperlinks(name + seq!['\t'] + features + seq![','] + feature) == (
        client_reports_hyperlinks(name + seq!['\t'] + features) || (name.len() > 0 && name
            != seq!['d', 'u', 'm', 'b'] && !has_prefix(name, seq!['t', 'm', 'u', 'x'])
            && !has_prefix(name, seq!['s', 'c', 'r', 'e', 'e', 'n']) && feature == seq![
            'h',
            'y',
            'p',
            'e',
            'r',
            'l',
            'i',
            'n',
            'k',
            's',
        ])),
{
    let longer = features + seq![','] + feature;
    assert(name + seq!['\t'] + features + seq![','] + feature =~= name + seq!['\t'] + longer);
    lemma_client_line_parts(name, features);
    lemma_client_line_parts(name, longer);
    lemma_split_append_field(features, feature);
    let p = split_on(features, ',');
    let h = hyperlinks_feature();
    assert(p.push(feature).contains(h) == (p.contains(h) || feature == h)) by {
        if p.push(feature).contains(h) {
            let i = choose|i: int| 0 <= i < p.push(feature).len() && p.push(feature)[i] == h;
            if i < p.len() {
                assert(p[i] == h);
            }
        }
        if p.contains(h) {
            let i = choose|i: int| 0 <= i < p.len() && p[i] == h;
            assert(p.push(feature)[i] == h);
        }
        if feature == h {
            assert(p.push(feature)[p.len() as int] == h);
        }
    }
}

/// A client line `name<TAB>F1,...,Fn` (fields without commas) reports hyperlinks
/// exactly when the name is acceptable (not empty, not `dumb`, not tmux or
/// screen) and some field Fi, at any position, is `hyperlinks`.
pub proof fn law_hyperlinks_at_any_position(name: Seq<char>, fields: Seq<Seq<char>>)
    requires
        !name.contains('\t'),
        forall|i: int| 0 <= i < fields.len() ==> !(#[trigger] fields[i]).contains(','),
    ensures
        client_reports_hyperlinks(name + seq!['\t'] + join_with_commas(fields)) == (name.len() > 0
            && name != seq!['d', 'u', 'm', 'b'] && !has_prefix(name, seq!['t', 'm', 'u', 'x'])
            && !has_prefix(name, seq!['s', 'c', 'r', 'e', 'e', 'n']) && fields.contains(
            seq!['h', 'y', 'p', 'e', 'r', 'l', 'i', 'n', 'k', 's'],
        )),
    decreases fields.len(),
{
    let h = hyperlinks_feature();
    assert(seq!['h', 'y', 'p', 'e', 'r', 'l', 'i', 'n', 'k', 's'] == h);
    assert(seq!['d', 'u', 'm', 'b'] == dumb_term());
    assert(seq!['t', 'm', 'u', 'x'] == tmux_term_prefix());
    assert(seq!['s', 'c', 'r', 'e', 'e', 'n'] == screen_term_prefix());
    if fields.len() == 0 {
        lemma_client_line_parts(name, Seq::empty());
        assert(split_on(Seq::<char>::empty(), ',') == seq![Seq::<char>::empty()]);
        assert(!seq![Seq::<char>::empty()].contains(h)) by {
            if seq![Seq::<char>::empty()].contains(h) {
                assert(seq![Seq::<char>::empty()][0] == h);
                assert(h.len() == 10);
            }
        }
    } else if fields.len() == 1 {
        let f = fields[0];
        assert(!f.contains(','));
        lemma_client_line_parts(name, f);
        lemma_split_on_extend_last(Seq::empty(), f, ',');
        assert(Seq::<char>::empty() + f =~= f);
        assert(split_on(Seq::<char>::empty(), ',') == seq![Seq::<char>::empty()]);
        assert(split_on(f, ',') =~= seq![f]);
        assert(seq![f].contains(h) == (f == h)) by {
            if seq![f].contains(h) {
                assert(seq![f][0] == f);
            }
            if f == h {
                assert(seq![f][0] == h);
            }
        }
        assert(fields.contains(h) == (f == h)) by {
            if fields.contains(h) {
                let i = choose|i: int| 0 <= i < fields.len() && fields[i] == h;
                assert(i == 0);
            }
            if f == h {
                assert(fields[0] == h);
            }
        }
    } else {
        let rest = fields.drop_last();
        let last = fields.last();
        assert(forall|i: int| 0 <= i < rest.len() ==> rest[i] == fields[i]);
        assert(!last.contains(',')) by {
            assert(fields[fields.len() - 1] == last);
        }
        law_hyperlinks_at_any_position(name, rest);
        law_appending_a_feature(name, join_with_commas(rest), last);
        assert(name + seq!['\t'] + join_with_commas(fields) =~= name + seq!['\t']
            + join_with_commas(rest) + seq![','] + last);
        assert(fields.contains(h) == (rest.contains(h) || last == h)) by {
            if fields.contains(h) {
                let i = choose|i: int| 0 <= i < fields.len() && fields[i] == h;
                if i < rest.len() {
                    assert(rest[i] == h);
                }
            }
            if rest.contains(h) {
                let i = choose|i: int| 0 <= i < rest.len() && rest[i] == h;
                assert(fields[i] == h);
            }
            if last == h {
                assert(fields[fields.len() - 1] == h);
            }
        }
    }
}

/// Output with no client line leaves the answer unknown.
pub proof fn law_no_clients_is_unknown()
    ensures
        spec_parse_clients(Seq::empty()) == TmuxHyperlinks::Unknown,
{
    lemma_output_lines(Seq::empty());
}

/// Every attached client must report hyperlinks: adding one client line to
/// complete output gives a supported verdict exactly when the output before it
/// was supported (or empty) and the new client reports hyperlinks.
pub proof fn law_every_attached_client_must_report_hyperlinks(output: Seq<char>, client: Seq<char>)
    requires
        output.len() == 0 || output.last() == '\n',
        !client.contains('\n'),
    ensures
        spec_parse_clients(output + client.push('\n')) == if (output.len() == 0 || spec_parse_clients(
            output,
        ) == TmuxHyperlinks::Supported) && client_reports_hyperlinks(strip_cr(client)) {
            TmuxHyperlinks::Supported
        } else {
            TmuxHyperlinks::Unknown
        },
{
    let whole = output + client.push('\n');
    let p = split_on(output, '\n');
    lemma_split_on_extend_last(output, client, '\n');
    lemma_output_lines(output);
    lemma_output_lines(whole);
    let n = p.len() as int;
    assert(p[n - 1].len() == 0) by {
        if output.len() > 0 {
            assert(output.drop_last().push('\n') =~= output);
        }
    }
    assert(p[n - 1] + client =~= client);
    let q = split_on(output + client, '\n');
    assert(whole.drop_last() =~= output + client);
    assert(whole.last() == '\n');
    let pw = split_on(whole, '\n');
    assert(pw == q.push(Seq::<char>::empty()));
    let lines = output_lines(output);
    let lines_w = output_lines(whole);
    assert(lines_w =~= lines.push(strip_cr(client))) by {
        assert forall|k: int| 0 <= k < lines_w.len() implies lines_w[k] == lines.push(
            strip_cr(client),
        )[k] by {
            assert(pw[k] == q[k]);
            if k < n - 1 {
                assert(q[k] == p[k]);
            } else {
                assert(q[k] == client);
            }
        }
    }
    if lines.len() > 0 && forall|k: int| 0 <= k < lines.len() ==> client_reports_hyperlinks(#[trigger] lines[k]) {
        if client_reports_hyperlinks(strip_cr(client)) {
            assert forall|k: int| 0 <= k < lines_w.len() implies client_reports_hyperlinks(#[trigger] lines_w[k]) by {
                if k < lines.len() {
                    assert(lines_w[k] == lines[k]);
                }
            }
        } else {
            assert(!client_reports_hyperlinks(lines_w[lines.len() as int]));
        }
    } else if output.len() == 0 {
        assert(lines.len() == 0);
        if client_reports_hyperlinks(strip_cr(client)) {
            assert forall|k: int| 0 <= k < lines_w.len() implies client_reports_hyperlinks(#[trigger] lines_w[k]) by {
                assert(lines_w[k] == strip_cr(client));
            }
        } else {
            assert(!client_reports_hyperlinks(lines_w[0]));
        }
    } else {
        assert(lines.len() > 0) by {
            assert(output.drop_last().push('\n') =~= output);
            lemma_split_on_nonempty(output.drop_last(), '\n');
        }
        let k = choose|k: int| 0 <= k < lines.len() && !client_reports_hyperlinks(#[trigger] lines[k]);
        assert(lines_w[k] == lines[k]);
    }
}

/// Reads the output of `tmux list-clients -F '#{client_termname}\t#{client_termfeatures}'`:
/// [`TmuxHyperlinks::Supported`] only when there is at least one client and every
/// attached client reports the `hyperlinks` feature from a terminal that is not
/// empty, `dumb`, or a nested tmux or screen.
pub fn parse_clients(output: &str) -> (res: TmuxHyperlinks)
    ensures
        res == spec_parse_clients(output@),
{
    let chars = chars_of(output);
    let ranges = split_ranges(&chars, 0, chars.len(), '\n');
    let ghost pieces = split_on(chars@, '\n');
    let ghost lines = output_lines(output@);
    proof {
        assert(chars@.subrange(0, chars@.len() as int) =~= chars@);
        lemma_output_lines(chars@);
    }
    let n = ranges.len();
    let last_empty = ranges[n - 1].0 == ranges[n - 1].1;
    if n == 1 && last_empty {
        return TmuxHyperlinks::Unknown;
    }
    let mut k: usize = 0;
    while k < n
        invariant
            n == ranges@.len() == pieces.len(),
            n >= 1,
            lines == output_lines(chars@),
            chars@ == output@,
            forall|j: int|
                0 <= j < n ==> {
                    &&& (#[trigger] ranges@[j]).0 <= ranges@[j].1 <= chars@.len()
                    &&& chars@.subrange(ranges@[j].0 as int, ranges@[j].1 as int) == pieces[j]
                },
            last_empty == (pieces[n - 1].len() == 0),
            pieces == split_on(chars@, '\n'),
            lines.len() == if last_empty { n - 1 } else { n as int },
            forall|j: int| 0 <= j < n - 1 ==> lines[j] == strip_cr(#[trigger] pieces[j]),
            !last_empty ==> lines[n - 1] == pieces[n - 1],
            k <= n,
            forall|j: int| 0 <= j < k && j < lines.len() ==> client_reports_hyperlinks(#[trigger] lines[j]),
        decreases n - k,
    {
        let (a, b) = ranges[k];
        if k + 1 < n {
            let line_end = if b > a && chars[b - 1] == '\r' {
                b - 1
            } else {
                b
            };
            proof {
                let piece = pieces[k as int];
                if b > a && chars@[b - 1] == '\r' {
                    assert(chars@.subrange(a as int, line_end as int) =~= piece.drop_last());
                }
                assert(lines[k as int] == strip_cr(piece));
            }
            if !client_reports_hyperlinks_in(&chars, a, line_end) {
                return TmuxHyperlinks::Unknown;
            }
        } else if !last_empty {
            proof {
                assert(lines[k as int] == pieces[k as int]);
            }
            if !client_reports_hyperlinks_in(&chars, a, b) {
                return TmuxHyperlinks::Unknown;
            }
        }
        k = k + 1;
    }
    TmuxHyperlinks::Supported
}

/// The most bytes of `list-clients` output that are read; more means the
/// answer stays unknown.
pub const MAX_OUTPUT: usize = 8192;

/// The verdict on a finished `list-clients` run: unknown when it printed more
/// than [`MAX_OUTPUT`] bytes, did not exit successfully, or printed bytes that
/// are not UTF-8; otherwise the verdict on its text.
pub open spec fn spec_classify_output(output: Seq<u8>, exited_successfully: bool) -> TmuxHyperlinks {
    if output.len() > MAX_OUTPUT || !exited_successfully || !valid_utf8(output) {
        TmuxHyperlinks::Unknown
    } else {
        spec_parse_clients(decode_utf8(output))
    }
}

/// Calls `std::str::from_utf8`. Claimed: the call succeeds exactly on valid
/// UTF-8, and then the text's encoding is the given bytes.
#[verifier::external_body]
fn str_from_utf8(bytes: &[u8]) -> (res: Option<&str>)
    ensures
        res is Some <==> valid_utf8(bytes@),
        res matches Some(text) ==> text.spec_bytes() == bytes@,
{
    std::str::from_utf8(bytes).ok()
}

/// Whether the exit status of a `list-clients` run still matters once `output_len`
/// bytes were read: not when the output is already too long.
pub fn needs_exit_status(output_len: usize) -> (res: bool)
    ensures
        res == (output_len <= MAX_OUTPUT),
{
    output_len <= MAX_OUTPUT
}

/// The verdict on a finished `list-clients` run from what it printed and
/// whether it exited successfully.
pub fn classify_output(output: &[u8], exited_successfully: bool) -> (res: TmuxHyperlinks)
    ensures
        res == spec_classify_output(output@, exited_successfully),
        output@.len() > MAX_OUTPUT ==> res == TmuxHyperlinks::Unknown,
        !exited_successfully ==> res == TmuxHyperlinks::Unknown,
        !valid_utf8(output@) ==> res == TmuxHyperlinks::Unknown,
{
    if output.len() > MAX_OUTPUT || !exited_successfully {
        return TmuxHyperlinks::Unknown;
    }
    match str_from_utf8(output) {
        None => TmuxHyperlinks::Unknown,
        Some(text) => {
            proof {
                encode_utf8_decode_utf8(text@);
            }
            parse_clients(text)
        },
    }
}

/// The socket path in the value of `TMUX`, `SOCKET,PID,SESSION`: everything
/// before the second-to-last comma (socket paths may hold commas), or nothing
/// when there are fewer than two commas.
pub open spec fn tmux_socket_field(tmux: Seq<char>) -> Option<Seq<char>> {
    match tmux.index_of_last(',') {
        None => None,
        Some(j) => match tmux.take(j).index_of_last(',') {
            None => None,
            Some(i) => Some(tmux.take(i)),
        },
    }
}

/// The position of the last `c` in `chars[..end]`, if any.
fn last_index_before(chars: &Vec<char>, end: usize, c: char) -> (res: Option<usize>)
    requires
        end <= chars@.len(),
    ensures
        res matches Some(i) ==> i < end && Some(i as int) == chars@.take(end as int).index_of_last(c),
        res is None ==> chars@.take(end as int).index_of_last(c) is None,
{
    let ghost prefix = chars@.take(end as int);
    proof {
        prefix.index_of_last_ensures(c);
    }
    let mut i: usize = end;
    while i > 0
        invariant
            i <= end <= chars@.len(),
            prefix == chars@.take(end as int),
            forall|k: int| i <= k < end ==> chars@[k] != c,
        decreases i,
    {
        if chars[i - 1] == c {
            proof {
                prefix.index_of_last_ensures(c);
                let found = prefix.index_of_last(c);
                assert(prefix[i - 1] == c);
                assert(found == Some((i - 1) as int)) by {
                    let f = found.unwrap();
                    if f > i - 1 {
                        assert(chars@[f] != c);
                    }
                }
            }
            return Some(i - 1);
        }
        i = i - 1;
    }
    proof {
        prefix.index_of_last_ensures(c);
        assert(!prefix.contains(c)) by {
            assert forall|k: int| 0 <= k < prefix.len() implies prefix[k] != c by {
                assert(chars@[k] != c);
            }
        }
    }
    None
}

/// The socket path field of a `TMUX` value (see [`tmux_socket_field`]).
pub fn tmux_socket_field_of(tmux: &str) -> (res: Option<&str>)
    ensures
        match tmux_socket_field(tmux@) {
            None => res is None,
            Some(field) => res matches Some(path) && path@ == field,
        },
{
    let chars = chars_of(tmux);
    proof {
        assert(chars@.take(chars@.len() as int) =~= chars@);
    }
    match last_index_before(&chars, chars.len(), ',') {
        None => None,
        Some(j) => match last_index_before(&chars, j, ',') {
            None => None,
            Some(i) => {
                proof {
                    assert(tmux@.take(j as int) =~= chars@.take(j as int));
                }
                Some(tmux.substring_char(0, i))
            },
        },
    }
}

/// Calls `std::path::Path::is_absolute` on `path`. Claimed: an absolute path is
/// not empty. What counts as absolute beyond that is left unsaid here, since it
/// depends on the platform (on Unix: starting with `/`).
#[verifier::external_body]
fn path_is_absolute(path: &str) -> (res: bool)
    ensures
        res ==> path@.len() > 0,
{
    std::path::Path::new(path).is_absolute()
}

/// The socket to connect to, given a socket field and whether the platform
/// counts it as an absolute path: only an absolute path is used.
pub fn socket_if_absolute(socket: &str, is_absolute: bool) -> (res: Option<&str>)
    ensures
        is_absolute ==> res == Some(socket),
        !is_absolute ==> res is None,
{
    if is_absolute {
        Some(socket)
    } else {
        None
    }
}

/// The socket of the tmux server named by a `TMUX` value: the socket field when
/// there is one and it is an absolute path, else nothing (the probe then gives up).
/// Whether the field is absolute is the platform's call (`Path::is_absolute`).
pub fn tmux_socket_path(tmux: &str) -> (res: Option<&str>)
    ensures
        tmux_socket_field(tmux@) is None ==> res is None,
        res matches Some(path) ==> tmux_socket_field(tmux@) == Some(path@) && path@.len() > 0,
{
    match tmux_socket_field_of(tmux) {
        None => None,
        Some(socket) => socket_if_absolute(socket, path_is_absolute(socket)),
    }
}

/// The tmux executables that may be run, in order of preference. Only these
/// fixed locations are tried, never a lookup through `PATH`.
pub fn tmux_executable_candidates() -> (res: [&'static str; 3])
    ensures
        res[0]@ == "/opt/homebrew/bin/tmux"@,
        res[1]@ == "/usr/local/bin/tmux"@,
        res[2]@ == "/usr/bin/tmux"@,
{
    ["/opt/homebrew/bin/tmux", "/usr/local/bin/tmux", "/usr/bin/tmux"]
}

} // verus!
