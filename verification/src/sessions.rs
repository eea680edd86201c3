//! Parser for the text that `openvpn3 sessions-list` prints: blocks of
//! `Key: value` lines separated by blank lines, one block per session.

use crate::text::{
    ascii_lowercase, at_line_start, chars_of, is_ascii_text, contains_str, contains_text, first_newline, has_prefix, lemma_first_newline_bounds,
    lemma_first_newline_is, lemma_lines_append, lemma_lines_first_line, lemma_lines_no_breaks, lemma_lines_push_newline, lemma_lines_unfold, lemma_trim_strip_cr, lines, lowercase,
    next_newline, range_has_prefix, strip_cr, to_lowercase, trim, trim_end, trim_range,
    trim_start, no_breaks,
};
use crate::types::{opt_text, views_of_sessions, ConnectionStatus, Session, SessionView};
use vstd::prelude::*;

verus! {

// ---------------------------------------------------------------------------
// Specification
// ---------------------------------------------------------------------------

/// Status of a session from the (lowercased) text of its `Status:` field.
pub open spec fn classify_session_status(lower: Seq<char>) -> ConnectionStatus {
    if contains_text(lower, "client connected"@) {
        ConnectionStatus::Connected
    } else if contains_text(lower, "connected"@) && !contains_text(lower, "failed"@) {
        ConnectionStatus::Connected
    } else if contains_text(lower, "ready"@) {
        ConnectionStatus::Connected
    } else if contains_text(lower, "connecting"@) || contains_text(lower, "resolving"@)
        || contains_text(lower, "authenticating"@) || contains_text(lower, "negotiating"@) {
        ConnectionStatus::Connecting
    } else if contains_text(lower, "failed"@) || contains_text(lower, "authentication failed"@) {
        ConnectionStatus::Failed
    } else {
        ConnectionStatus::Disconnected
    }
}

/// Status of a session from the text of its `Status:` field, compared
/// without regard to case.
pub open spec fn session_status_of(text: Seq<char>) -> ConnectionStatus {
    classify_session_status(lowercase(text))
}

/// What the parser has collected: the finished sessions and the fields seen
/// so far in the current block.
pub struct ScanState {
    pub done: Seq<SessionView>,
    pub path: Option<Seq<char>>,
    pub profile: Option<Seq<char>>,
    pub status: Option<ConnectionStatus>,
}

pub open spec fn initial_scan() -> ScanState {
    ScanState { done: Seq::empty(), path: None, profile: None, status: None }
}

/// The finished sessions, plus the current block when it has all three fields.
pub open spec fn close_block(st: ScanState) -> Seq<SessionView> {
    match (st.path, st.profile, st.status) {
        (Some(path), Some(profile_name), Some(status)) => st.done.push(
            SessionView { path, profile_name, status },
        ),
        _ => st.done,
    }
}

/// Effect of one line on the parser.
pub open spec fn scan_line(st: ScanState, line: Seq<char>) -> ScanState {
    let t = trim(line);
    if has_prefix(t, "---"@) {
        st
    } else if t.len() == 0 {
        ScanState { done: close_block(st), path: None, profile: None, status: None }
    } else if has_prefix(t, "Path:"@) {
        ScanState { path: Some(trim(t.skip("Path:"@.len() as int))), ..st }
    } else if has_prefix(t, "Config name:"@) {
        ScanState { profile: Some(trim(t.skip("Config name:"@.len() as int))), ..st }
    } else if has_prefix(t, "Status:"@) {
        ScanState {
            status: Some(session_status_of(trim(t.skip("Status:"@.len() as int)))),
            ..st
        }
    } else {
        st
    }
}

/// Sessions collected from the lines `ls`, starting from `st`.
pub open spec fn scan_lines(ls: Seq<Seq<char>>, st: ScanState) -> Seq<SessionView>
    decreases ls.len(),
{
    if ls.len() == 0 {
        close_block(st)
    } else {
        scan_lines(ls.drop_first(), scan_line(st, ls[0]))
    }
}

/// The sessions that a `sessions-list` text describes, in order.
pub open spec fn sessions_in(output: Seq<char>) -> Seq<SessionView> {
    scan_lines(lines(output), initial_scan())
}

proof fn lemma_scan_push_newline(t: Seq<char>, st: ScanState)
    ensures
        scan_lines(lines(t.push('\n')), st) == scan_lines(lines(t), st),
    decreases t.len(),
{
    lemma_lines_push_newline(t);
    let ls = lines(t.push('\n'));
    if t.len() == 0 {
        assert(ls.drop_first() =~= Seq::<Seq<char>>::empty());
        assert(lines(t) =~= Seq::<Seq<char>>::empty());
        let e = Seq::<char>::empty();
        assert(trim_start(e) =~= e);
        assert(trim_end(e) =~= e);
        assert(trim(e) =~= e);
        assert(!has_prefix(e, "---"@)) by {
            reveal_strlit("---");
        }
        let st2 = scan_line(st, e);
        assert(st2 == ScanState { done: close_block(st), path: None, profile: None, status: None });
        assert(ls == seq![e]);
        assert(scan_lines(ls, st) == scan_lines(ls.drop_first(), st2));
        assert(scan_lines(Seq::<Seq<char>>::empty(), st2) == close_block(st2));
        assert(scan_lines(Seq::<Seq<char>>::empty(), st) == close_block(st));
    } else {
        lemma_first_newline_bounds(t);
        let k = first_newline(t);
        if k < t.len() {
            let l = strip_cr(t.take(k));
            let rest = t.skip(k + 1);
            assert(ls.drop_first() =~= lines(rest.push('\n')));
            assert(lines(t).drop_first() =~= lines(rest));
            lemma_scan_push_newline(rest, scan_line(st, l));
        } else {
            lemma_trim_strip_cr(t);
            assert(scan_line(st, strip_cr(t)) == scan_line(st, t));
            assert(ls.drop_first() =~= Seq::<Seq<char>>::empty());
            assert(lines(t).drop_first() =~= Seq::<Seq<char>>::empty());
        }
    }
}

/// Parser state after the lines `ls`, starting from `st`.
pub open spec fn fold_lines(ls: Seq<Seq<char>>, st: ScanState) -> ScanState
    decreases ls.len(),
{
    if ls.len() == 0 {
        st
    } else {
        fold_lines(ls.drop_first(), scan_line(st, ls[0]))
    }
}

/// `st` with the sessions `p` found before it.
pub open spec fn after_sessions(st: ScanState, p: Seq<SessionView>) -> ScanState {
    ScanState { done: p + st.done, ..st }
}

proof fn lemma_scan_is_fold(ls: Seq<Seq<char>>, st: ScanState)
    ensures
        scan_lines(ls, st) == close_block(fold_lines(ls, st)),
    decreases ls.len(),
{
    if ls.len() > 0 {
        lemma_scan_is_fold(ls.drop_first(), scan_line(st, ls[0]));
    }
}

proof fn lemma_fold_append(ls1: Seq<Seq<char>>, ls2: Seq<Seq<char>>, st: ScanState)
    ensures
        fold_lines(ls1 + ls2, st) == fold_lines(ls2, fold_lines(ls1, st)),
    decreases ls1.len(),
{
    if ls1.len() == 0 {
        assert(ls1 + ls2 =~= ls2);
    } else {
        assert((ls1 + ls2).drop_first() =~= ls1.drop_first() + ls2);
        assert((ls1 + ls2)[0] == ls1[0]);
        lemma_fold_append(ls1.drop_first(), ls2, scan_line(st, ls1[0]));
    }
}

proof fn lemma_close_after(st: ScanState, p: Seq<SessionView>)
    ensures
        close_block(after_sessions(st, p)) == p + close_block(st),
{
    match (st.path, st.profile, st.status) {
        (Some(path), Some(profile_name), Some(status)) => {
            let s = SessionView { path, profile_name, status };
            assert((p + st.done).push(s) =~= p + st.done.push(s));
        },
        _ => {},
    }
}

proof fn lemma_fold_after(ls: Seq<Seq<char>>, st: ScanState, p: Seq<SessionView>)
    ensures
        fold_lines(ls, after_sessions(st, p)) == after_sessions(fold_lines(ls, st), p),
    decreases ls.len(),
{
    if ls.len() > 0 {
        let l = ls[0];
        lemma_close_after(st, p);
        assert(scan_line(after_sessions(st, p), l) == after_sessions(scan_line(st, l), p));
        lemma_fold_after(ls.drop_first(), scan_line(st, l), p);
    }
}

/// Two listings joined by a blank line list the sessions of the first, then
/// those of the second: a blank line ends a session block.
pub proof fn law_blank_line_separates(a: Seq<char>, b: Seq<char>)
    requires
        at_line_start(a),
    ensures
        sessions_in(a + seq!['\n'] + b) == sessions_in(a) + sessions_in(b),
{
    let e = Seq::<char>::empty();
    assert(forall|i: int| 0 <= i < e.len() ==> e[i] != '\n');
    lemma_lines_first_line(e, b);
    assert(e + seq!['\n'] + b =~= seq!['\n'] + b);
    assert(strip_cr(e) =~= e);
    lemma_lines_append(a, seq!['\n'] + b);
    assert(a + seq!['\n'] + b =~= a + (seq!['\n'] + b));
    let la = lines(a);
    let lb = lines(b);
    assert(lines(a + seq!['\n'] + b) =~= la + (seq![e] + lb));
    let sa = fold_lines(la, initial_scan());
    lemma_fold_append(la, seq![e] + lb, initial_scan());
    lemma_fold_append(seq![e], lb, sa);
    assert(trim_start(e) =~= e);
    assert(trim_end(e) =~= e);
    assert(!has_prefix(e, "---"@)) by {
        reveal_strlit("---");
    }
    let reset = ScanState { done: close_block(sa), path: None, profile: None, status: None };
    assert(scan_line(sa, e) == reset);
    assert(seq![e].drop_first() =~= Seq::<Seq<char>>::empty());
    assert(seq![e][0] == e);
    assert(fold_lines(Seq::<Seq<char>>::empty(), reset) == reset);
    assert(fold_lines(seq![e], sa) == reset);
    assert(reset == after_sessions(initial_scan(), close_block(sa)));
    lemma_fold_after(lb, initial_scan(), close_block(sa));
    lemma_close_after(fold_lines(lb, initial_scan()), close_block(sa));
    lemma_scan_is_fold(la + (seq![e] + lb), initial_scan());
    lemma_scan_is_fold(la, initial_scan());
    lemma_scan_is_fold(lb, initial_scan());
}

/// A line of dashes between complete lines changes nothing: delimiter lines
/// are skipped.
pub proof fn law_dash_lines_skipped(a: Seq<char>, d: Seq<char>, b: Seq<char>)
    requires
        at_line_start(a),
        forall|i: int| 0 <= i < d.len() ==> d[i] != '\n',
        has_prefix(trim(d), "---"@),
    ensures
        sessions_in(a + d + seq!['\n'] + b) == sessions_in(a + b),
{
    lemma_lines_first_line(d, b);
    lemma_lines_append(a, d + seq!['\n'] + b);
    lemma_lines_append(a, b);
    assert(a + d + seq!['\n'] + b =~= a + (d + seq!['\n'] + b));
    let la = lines(a);
    let lb = lines(b);
    let l = strip_cr(d);
    lemma_trim_strip_cr(d);
    let sa = fold_lines(la, initial_scan());
    assert(scan_line(sa, l) == sa);
    lemma_fold_append(la, seq![l] + lb, initial_scan());
    lemma_fold_append(seq![l], lb, sa);
    assert(seq![l].drop_first() =~= Seq::<Seq<char>>::empty());
    assert(seq![l][0] == l);
    assert(fold_lines(Seq::<Seq<char>>::empty(), sa) == sa);
    assert(fold_lines(seq![l], sa) == sa);
    lemma_fold_append(la, lb, initial_scan());
    lemma_scan_is_fold(la + (seq![l] + lb), initial_scan());
    lemma_scan_is_fold(la + lb, initial_scan());
}

/// A delimiter line: after trimming, it starts with three dashes.
pub open spec fn is_dash_line(l: Seq<char>) -> bool {
    has_prefix(trim(l), "---"@)
}

/// `ls` without its delimiter lines, in order.
pub open spec fn without_dash_lines(ls: Seq<Seq<char>>) -> Seq<Seq<char>>
    decreases ls.len(),
{
    if ls.len() == 0 {
        ls
    } else if is_dash_line(ls[0]) {
        without_dash_lines(ls.drop_first())
    } else {
        seq![ls[0]] + without_dash_lines(ls.drop_first())
    }
}

/// The lines `ls` joined with a line break between neighbours.
pub open spec fn join_lines(ls: Seq<Seq<char>>) -> Seq<char>
    decreases ls.len(),
{
    if ls.len() == 0 {
        Seq::empty()
    } else if ls.len() == 1 {
        ls[0]
    } else {
        ls[0] + seq!['\n'] + join_lines(ls.drop_first())
    }
}

proof fn lemma_without_dash_no_breaks(ls: Seq<Seq<char>>)
    requires
        no_breaks(ls),
    ensures
        no_breaks(without_dash_lines(ls)),
    decreases ls.len(),
{
    if ls.len() > 0 {
        let rest = ls.drop_first();
        assert forall|i: int, j: int| 0 <= i < rest.len() && 0 <= j < rest[i].len() implies #[trigger] rest[i][j] != '\n' by {
            assert(rest[i] == ls[i + 1]);
        }
        lemma_without_dash_no_breaks(rest);
        if !is_dash_line(ls[0]) {
            let w = without_dash_lines(ls);
            assert(w == seq![ls[0]] + without_dash_lines(rest));
            assert forall|i: int, j: int| 0 <= i < w.len() && 0 <= j < w[i].len() implies #[trigger] w[i][j] != '\n' by {
                if i == 0 {
                    assert(w[0] == ls[0]);
                    assert(ls[0][j] != '\n');
                } else {
                    assert(w[i] == without_dash_lines(rest)[i - 1]);
                }
            }
        }
    }
}

proof fn lemma_scan_without_dash(ls: Seq<Seq<char>>, st: ScanState)
    ensures
        scan_lines(without_dash_lines(ls), st) == scan_lines(ls, st),
    decreases ls.len(),
{
    if ls.len() > 0 {
        let rest = ls.drop_first();
        if is_dash_line(ls[0]) {
            assert(scan_line(st, ls[0]) == st);
            lemma_scan_without_dash(rest, st);
        } else {
            let w = seq![ls[0]] + without_dash_lines(rest);
            assert(w.drop_first() =~= without_dash_lines(rest));
            assert(w[0] == ls[0]);
            lemma_scan_without_dash(rest, scan_line(st, ls[0]));
        }
    }
}

proof fn lemma_scan_empty_line(st: ScanState)
    ensures
        scan_lines(seq![Seq::<char>::empty()], st) == close_block(st),
{
    let e = Seq::<char>::empty();
    assert(trim_start(e) =~= e);
    assert(trim_end(e) =~= e);
    assert(!has_prefix(e, "---"@)) by {
        reveal_strlit("---");
    }
    let reset = ScanState { done: close_block(st), path: None, profile: None, status: None };
    assert(scan_line(st, e) == reset);
    assert(seq![e].drop_first() =~= Seq::<Seq<char>>::empty());
    assert(seq![e][0] == e);
    assert(scan_lines(Seq::<Seq<char>>::empty(), reset) == close_block(reset));
}

proof fn lemma_scan_join(ls: Seq<Seq<char>>, st: ScanState)
    requires
        no_breaks(ls),
    ensures
        scan_lines(lines(join_lines(ls)), st) == scan_lines(ls, st),
    decreases ls.len(),
{
    let e = Seq::<char>::empty();
    if ls.len() == 0 {
        assert(lines(e) =~= Seq::<Seq<char>>::empty());
    } else if ls.len() == 1 {
        let l = ls[0];
        assert(ls =~= seq![l]);
        assert(ls.drop_first() =~= Seq::<Seq<char>>::empty());
        assert(scan_lines(Seq::<Seq<char>>::empty(), scan_line(st, l)) == close_block(scan_line(st, l)));
        if l.len() == 0 {
            assert(l =~= e);
            assert(lines(e) =~= Seq::<Seq<char>>::empty());
            lemma_scan_empty_line(st);
        } else {
            assert forall|j: int| 0 <= j < l.len() implies l[j] != '\n' by {
                assert(ls[0][j] != '\n');
            }
            lemma_first_newline_is(l, l.len() as int);
            assert(lines(l) == seq![l]);
        }
    } else {
        let l = ls[0];
        let rest = ls.drop_first();
        assert forall|j: int| 0 <= j < l.len() implies l[j] != '\n' by {
            assert(ls[0][j] != '\n');
        }
        assert forall|i: int, j: int| 0 <= i < rest.len() && 0 <= j < rest[i].len() implies #[trigger] rest[i][j] != '\n' by {
            assert(rest[i] == ls[i + 1]);
        }
        lemma_lines_first_line(l, join_lines(rest));
        let ls2 = seq![strip_cr(l)] + lines(join_lines(rest));
        assert(ls2.drop_first() =~= lines(join_lines(rest)));
        assert(ls2[0] == strip_cr(l));
        lemma_trim_strip_cr(l);
        assert(scan_line(st, strip_cr(l)) == scan_line(st, l));
        lemma_scan_join(rest, scan_line(st, l));
    }
}

/// Delimiter lines neither start nor end a session block: dropping every one
/// of them from a listing (and joining the other lines again) leaves the same
/// sessions.
pub proof fn law_dash_lines_removed(output: Seq<char>)
    ensures
        sessions_in(join_lines(without_dash_lines(lines(output)))) == sessions_in(output),
{
    lemma_lines_no_breaks(output);
    lemma_without_dash_no_breaks(lines(output));
    lemma_scan_join(without_dash_lines(lines(output)), initial_scan());
    lemma_scan_without_dash(lines(output), initial_scan());
}

/// A session listing ends the same way with or without a final line break:
/// the last session counts even when no blank line follows it.
pub proof fn law_final_newline_irrelevant(output: Seq<char>)
    ensures
        sessions_in(output.push('\n')) == sessions_in(output),
{
    lemma_scan_push_newline(output, initial_scan());
}

// ---------------------------------------------------------------------------
// Executable parser
// ---------------------------------------------------------------------------

/// Parses sessions from `sessions-list` output.
pub fn parse_sessions(output: &str) -> (r: Vec<Session>)
    ensures
        views_of_sessions(r@) == sessions_in(output@),
{
    parse_all_sessions(output)
}

/// Status of a session from the text of its `Status:` field.
pub fn parse_status(status: &str) -> (r: ConnectionStatus)
    ensures
        r == session_status_of(status@),
        is_ascii_text(status@) ==> r == classify_session_status(ascii_lowercase(status@)),
{
    let lower = to_lowercase(status);
    classify_lowered_status(lower.as_str())
}

/// Status of a session from the lowercased text of its `Status:` field.
pub fn classify_lowered_status(lower: &str) -> (r: ConnectionStatus)
    ensures
        r == classify_session_status(lower@),
{
    let l = chars_of(lower);
    if contains_str(&l, "client connected") {
        ConnectionStatus::Connected
    } else if contains_str(&l, "connected") && !contains_str(&l, "failed") {
        ConnectionStatus::Connected
    } else if contains_str(&l, "ready") {
        ConnectionStatus::Connected
    } else if contains_str(&l, "connecting") || contains_str(&l, "resolving") || contains_str(
        &l,
        "authenticating",
    ) || contains_str(&l, "negotiating") {
        ConnectionStatus::Connecting
    } else if contains_str(&l, "failed") || contains_str(&l, "authentication failed") {
        ConnectionStatus::Failed
    } else {
        ConnectionStatus::Disconnected
    }
}

/// The text of the field value after `key` in `v[a..b]`, trimmed.
fn field_value(output: &str, v: &Vec<char>, a: usize, b: usize, key_len: usize) -> (r: String)
    requires
        v@ == output@,
        a + key_len <= b <= v.len(),
    ensures
        r@ == trim(v@.subrange(a as int, b as int).skip(key_len as int)),
{
    let (x, y) = trim_range(v, a + key_len, b);
    assert(v@.subrange(a as int, b as int).skip(key_len as int) =~= v@.subrange(
        a + key_len,
        b as int,
    ));
    String::from_str(output.substring_char(x, y))
}

/// Parses all sessions from the output; sessions are separated by blank lines.
pub fn parse_all_sessions(output: &str) -> (r: Vec<Session>)
    ensures
        views_of_sessions(r@) == sessions_in(output@),
{
    let v = chars_of(output);
    let n = v.len();
    let dashes = chars_of("---");
    let path_key = chars_of("Path:");
    let config_key = chars_of("Config name:");
    let status_key = chars_of("Status:");
    let mut sessions: Vec<Session> = Vec::new();
    let mut current_path: Option<String> = None;
    let mut current_profile: Option<String> = None;
    let mut current_status: Option<ConnectionStatus> = None;
    let mut pos: usize = 0;
    assert(v@.subrange(0, n as int) =~= output@);
    assert(views_of_sessions(sessions@) =~= Seq::<SessionView>::empty());
    while pos < n
        invariant
            v@ == output@,
            n == v.len(),
            pos <= n,
            dashes@ == "---"@,
            path_key@ == "Path:"@,
            config_key@ == "Config name:"@,
            status_key@ == "Status:"@,
            scan_lines(
                lines(v@.subrange(pos as int, n as int)),
                ScanState {
                    done: views_of_sessions(sessions@),
                    path: opt_text(current_path),
                    profile: opt_text(current_profile),
                    status: current_status,
                },
            ) == sessions_in(output@),
        decreases n - pos,
    {
        let ghost st = ScanState {
            done: views_of_sessions(sessions@),
            path: opt_text(current_path),
            profile: opt_text(current_profile),
            status: current_status,
        };
        let e = next_newline(&v, pos);
        let hi = if e < n && e > pos && v[e - 1] == '\r' {
            e - 1
        } else {
            e
        };
        let ghost line = v@.subrange(pos as int, hi as int);
        proof {
            lemma_lines_unfold(v@, pos as int, e as int);
            if e < n {
                assert(line =~= strip_cr(v@.subrange(pos as int, e as int)));
            } else {
                assert(line =~= v@.subrange(pos as int, e as int));
            }
            let rest = if e < n {
                v@.subrange(e + 1, n as int)
            } else {
                v@.subrange(n as int, n as int)
            };
            let ls = lines(v@.subrange(pos as int, n as int));
            if e == n {
                assert(rest.len() == 0);
                assert(lines(rest) =~= Seq::<Seq<char>>::empty());
            }
            assert(ls =~= seq![line] + lines(rest));
            assert(ls.drop_first() =~= lines(rest));
            assert(scan_lines(ls, st) == scan_lines(lines(rest), scan_line(st, line)));
        }
        let (a, b) = trim_range(&v, pos, hi);
        let ghost t = v@.subrange(a as int, b as int);
        assert(t == trim(line));
        if range_has_prefix(&v, a, b, &dashes) {
        } else if a == b {
            let ghost closed = close_block(st);
            let p = current_path.take();
            let c = current_profile.take();
            let s = current_status.take();
            match (p, c, s) {
                (Some(path), Some(profile_name), Some(status)) => {
                    sessions.push(Session { path, profile_name, status });
                    assert(views_of_sessions(sessions@) =~= closed);
                },
                _ => {
                    assert(views_of_sessions(sessions@) =~= closed);
                },
            }
        } else if range_has_prefix(&v, a, b, &path_key) {
            current_path = Some(field_value(output, &v, a, b, path_key.len()));
        } else if range_has_prefix(&v, a, b, &config_key) {
            current_profile = Some(field_value(output, &v, a, b, config_key.len()));
        } else if range_has_prefix(&v, a, b, &status_key) {
            let value = field_value(output, &v, a, b, status_key.len());
            current_status = Some(parse_status(value.as_str()));
        }
        proof {
            let st2 = ScanState {
                done: views_of_sessions(sessions@),
                path: opt_text(current_path),
                profile: opt_text(current_profile),
                status: current_status,
            };
            assert(st2 == scan_line(st, line));
        }
        pos = if e < n {
            e + 1
        } else {
            n
        };
    }
    let ghost st = ScanState {
        done: views_of_sessions(sessions@),
        path: opt_text(current_path),
        profile: opt_text(current_profile),
        status: current_status,
    };
    assert(lines(v@.subrange(n as int, n as int)) =~= Seq::<Seq<char>>::empty());
    let ghost closed = close_block(st);
    match (current_path, current_profile, current_status) {
        (Some(path), Some(profile_name), Some(status)) => {
            sessions.push(Session { path, profile_name, status });
            assert(views_of_sessions(sessions@) =~= closed);
        },
        _ => {
            assert(views_of_sessions(sessions@) =~= closed);
        },
    }
    sessions
}

} // verus!
