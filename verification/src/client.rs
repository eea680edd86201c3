//! Decisions the OpenVPN 3 clients take between their calls to the session
//! and configuration services: retrying a call, naming an imported profile,
//! choosing which credentials to hand over and which sessions to close, and
//! reading the outcome of a command.

use crate::error::{joined, Error, ErrorView};
use crate::text::{
    chars_of, contains_str, contains_text, is_blank, is_blank_str, str_eq, trim, trimmed,
};
use crate::types::{
    opt_text, views_of_sessions, CredentialInput, CredentialInputView, Credentials, Session,
    SessionView,
};
use vstd::prelude::*;

verus! {

// ---------------------------------------------------------------------------
// Retrying a call while the service is being activated
// ---------------------------------------------------------------------------

/// How many times a fetch from a service is tried.
pub const MAX_ATTEMPTS: u32 = 3;

/// Pause before trying again, in milliseconds.
pub const RETRY_DELAY_MS: u64 = 500;

/// The error text says the service is still being activated.
pub open spec fn is_activation_error(text: Seq<char>) -> bool {
    contains_text(text, "UnknownMethod"@) || contains_text(text, "does not exist"@)
}

/// A failed call at attempt `attempt` is tried again.
pub open spec fn should_retry(attempt: u32, text: Seq<char>) -> bool {
    attempt < MAX_ATTEMPTS && is_activation_error(text)
}

/// What to do after a failed call.
#[derive(Debug, Clone, Copy, PartialEq, Eq, Structural)]
pub enum RetryStep {
    /// Wait this many milliseconds, then call again.
    Retry { delay_ms: u64 },
    /// Stop trying.
    GiveUp,
}

/// Progress of a call to a service that may still be starting up.
pub struct FetchRetry {
    pub attempt: u32,
    pub last_error: Option<String>,
}

impl FetchRetry {
    /// Attempts are numbered from 1 and never pass `MAX_ATTEMPTS`.
    pub open spec fn wf(&self) -> bool {
        1 <= self.attempt <= MAX_ATTEMPTS
    }

    /// Before the first call.
    pub fn new() -> (r: Self)
        ensures
            r.wf(),
            r.attempt == 1,
            r.last_error is None,
    {
        FetchRetry { attempt: 1, last_error: None }
    }

    /// Records a failed call with the text of its error and says whether to
    /// call again.
    pub fn on_failure(&mut self, error_text: String) -> (step: RetryStep)
        requires
            old(self).wf(),
        ensures
            final(self).wf(),
            final(self).last_error == Some(error_text),
            should_retry(old(self).attempt, error_text@) ==> step == (RetryStep::Retry {
                delay_ms: RETRY_DELAY_MS,
            }) && final(self).attempt == old(self).attempt + 1,
            !should_retry(old(self).attempt, error_text@) ==> step == RetryStep::GiveUp
                && final(self).attempt == old(self).attempt,
    {
        let text = chars_of(error_text.as_str());
        let activating = contains_str(&text, "UnknownMethod") || contains_str(
            &text,
            "does not exist",
        );
        let retry = self.attempt < MAX_ATTEMPTS && activating;
        self.last_error = Some(error_text);
        if retry {
            self.attempt = self.attempt + 1;
            RetryStep::Retry { delay_ms: RETRY_DELAY_MS }
        } else {
            RetryStep::GiveUp
        }
    }

    /// The error reported once the configuration fetch has given up.
    pub fn config_fetch_error(&self) -> (e: Error)
        ensures
            e@ == ErrorView::DbusMethod(
                "Failed to fetch configs after retries: "@ + match self.last_error {
                    Some(t) => t@,
                    None => "Unknown error"@,
                },
            ),
    {
        match &self.last_error {
            Some(t) => Error::DbusMethod(
                joined("Failed to fetch configs after retries: ", t.as_str()),
            ),
            None => Error::DbusMethod(
                joined("Failed to fetch configs after retries: ", "Unknown error"),
            ),
        }
    }
}

/// Number of failed calls, out of `errors`, after which a fetch that starts
/// at attempt `attempt` stops.
pub open spec fn calls_made(attempt: u32, errors: Seq<Seq<char>>) -> nat
    decreases errors.len(),
{
    if errors.len() == 0 {
        0
    } else if should_retry(attempt, errors[0]) {
        1 + calls_made((attempt + 1) as u32, errors.drop_first())
    } else {
        1
    }
}

/// However the service fails, a fetch calls it at most `MAX_ATTEMPTS` times.
pub proof fn lemma_fetch_calls_bounded(attempt: u32, errors: Seq<Seq<char>>)
    requires
        1 <= attempt <= MAX_ATTEMPTS,
    ensures
        calls_made(attempt, errors) <= MAX_ATTEMPTS - attempt + 1,
    decreases errors.len(),
{
    if errors.len() > 0 && should_retry(attempt, errors[0]) {
        lemma_fetch_calls_bounded((attempt + 1) as u32, errors.drop_first());
    }
}

// ---------------------------------------------------------------------------
// Naming an imported profile
// ---------------------------------------------------------------------------

/// `seg` is not a file name: an empty segment (two slashes in a row, or a
/// trailing slash) or the current directory.
pub open spec fn skipped_segment(seg: Seq<char>) -> bool {
    seg.len() == 0 || seg == seq!['.']
}

/// The last segment of `p` that names something, scanning leftwards from the
/// end; `seg` holds the characters already read of the current segment.
pub open spec fn last_segment(p: Seq<char>, seg: Seq<char>) -> Option<Seq<char>>
    decreases p.len(),
{
    if p.len() == 0 {
        if skipped_segment(seg) { None } else { Some(seg) }
    } else if p.last() == '/' {
        if skipped_segment(seg) { last_segment(p.drop_last(), seq![]) } else { Some(seg) }
    } else {
        last_segment(p.drop_last(), seq![p.last()] + seg)
    }
}

/// The file name of a Unix path: its last component, when that is neither
/// the root, the current nor the parent directory.
pub open spec fn file_name_of(path: Seq<char>) -> Option<Seq<char>> {
    match last_segment(path, seq![]) {
        Some(seg) if seg != seq!['.', '.'] => Some(seg),
        _ => None,
    }
}

/// Index of the last '.' in `name`, or -1 when there is none.
pub open spec fn last_dot(name: Seq<char>) -> int
    decreases name.len(),
{
    if name.len() == 0 {
        -1
    } else if name.last() == '.' {
        name.len() - 1
    } else {
        last_dot(name.drop_last())
    }
}

/// The stem of a path: its file name up to the last '.', or the whole file
/// name when it has no '.' past its first character.
pub open spec fn file_stem_of(path: Seq<char>) -> Option<Seq<char>> {
    match file_name_of(path) {
        Some(name) => Some(if last_dot(name) <= 0 { name } else { name.take(last_dot(name)) }),
        None => None,
    }
}

/// Calls `Path::file_stem` on `path`, and `OsStr::to_str` on the stem. The
/// contract states what std documents of both on Unix: the file name is the
/// last component, after repeated and trailing separators and `.` components
/// are dropped, and there is none for the root or a path ending in `..`; the
/// stem is that name up to its last `.`, or the whole name when it has no `.`
/// after its first character. A stem taken from a `&str` is valid UTF-8, so
/// `to_str` gives it back.
#[verifier::external_body]
fn path_file_stem(path: &str) -> (r: Option<String>)
    ensures
        opt_text(r) == file_stem_of(path@),
{
    match std::path::Path::new(path).file_stem() {
        Some(stem) => stem.to_str().map(String::from),
        None => None,
    }
}

/// The name an imported profile gets: the given name, trimmed, unless it is
/// missing or blank; else the file name of the configuration without its
/// extension.
pub open spec fn import_name(path: Seq<char>, name: Option<Seq<char>>) -> Option<Seq<char>> {
    match name {
        Some(n) if !is_blank(n) => Some(trim(n)),
        _ => file_stem_of(path),
    }
}

/// The name to import the configuration at `path` under, or `InvalidInput`
/// when there is none.
pub fn import_profile_name(path: &str, name: Option<&str>) -> (r: Result<String, Error>)
    ensures
        match import_name(path@, match name {
            Some(n) => Some(n@),
            None => None,
        }) {
            Some(n) => r matches Ok(s) && s@ == n,
            None => r matches Err(e) && e@ == ErrorView::InvalidInput(
                "Could not determine profile name"@,
            ),
        },
{
    if let Some(n) = name {
        if !is_blank_str(n) {
            return Ok(trimmed(n));
        }
    }
    match path_file_stem(path) {
        Some(stem) => Ok(stem),
        None => Err(Error::InvalidInput(String::from_str("Could not determine profile name"))),
    }
}

// ---------------------------------------------------------------------------
// Handing credentials to a session
// ---------------------------------------------------------------------------

/// One value to hand to the session: the slot it fills and the text.
pub struct ProvidedValue {
    pub input_type: u32,
    pub input_group: u32,
    pub id: u32,
    pub name: String,
    pub value: String,
}

/// `item` fills the slot of `input` with the text `value`.
pub open spec fn fills(item: ProvidedValue, input: CredentialInputView, value: Seq<char>) -> bool {
    &&& item.input_type == input.input_type
    &&& item.input_group == input.input_group
    &&& item.id == input.id
    &&& item.name@ == input.name
    &&& item.value@ == value
}

/// The values to hand over, in the order the session asks for them: one for
/// each requested input that the user gave a value for.
pub open spec fn provision(inputs: Seq<CredentialInputView>, values: Map<u32, Seq<char>>) -> Seq<
    (CredentialInputView, Seq<char>),
>
    decreases inputs.len(),
{
    if inputs.len() == 0 {
        Seq::empty()
    } else {
        let rest = provision(inputs.drop_last(), values);
        let last = inputs.last();
        if last.key() <= u32::MAX && values.contains_key(last.key() as u32) {
            rest.push((last, values[last.key() as u32]))
        } else {
            rest
        }
    }
}

pub open spec fn input_views(v: Seq<CredentialInput>) -> Seq<CredentialInputView> {
    v.map_values(|i: CredentialInput| i@)
}

/// Every input's key can be computed without overflow.
pub open spec fn keys_fit(v: Seq<CredentialInput>) -> bool {
    forall|i: int| 0 <= i < v.len() ==> (#[trigger] v[i])@.key_fits()
}

/// The values to hand to the session for the inputs it asks for.
pub fn values_to_provide(inputs: &Vec<CredentialInput>, credentials: &Credentials) -> (r: Vec<
    ProvidedValue,
>)
    requires
        keys_fit(inputs@),
    ensures
        r@.len() == provision(input_views(inputs@), credentials.entries()).len(),
        forall|i: int|
            0 <= i < r@.len() ==> fills(
                #[trigger] r@[i],
                provision(input_views(inputs@), credentials.entries())[i].0,
                provision(input_views(inputs@), credentials.entries())[i].1,
            ),
{
    let ghost values = credentials.entries();
    let mut out: Vec<ProvidedValue> = Vec::new();
    let mut k: usize = 0;
    while k < inputs.len()
        invariant
            k <= inputs.len(),
            keys_fit(inputs@),
            values == credentials.entries(),
            out@.len() == provision(input_views(inputs@).take(k as int), values).len(),
            forall|i: int|
                0 <= i < out@.len() ==> fills(
                    #[trigger] out@[i],
                    provision(input_views(inputs@).take(k as int), values)[i].0,
                    provision(input_views(inputs@).take(k as int), values)[i].1,
                ),
        decreases inputs.len() - k,
    {
        let input = &inputs[k];
        let ghost before = out@;
        let ghost views = input_views(inputs@);
        assert(views.take(k + 1).drop_last() =~= views.take(k as int));
        assert(views.take(k + 1).last() == input@);
        assert(input@.key_fits());
        let key = input.unique_id();
        match credentials.values.get(&key) {
            Some(value) => {
                out.push(
                    ProvidedValue {
                        input_type: input.input_type,
                        input_group: input.input_group,
                        id: input.id,
                        name: input.name.clone(),
                        value: value.clone(),
                    },
                );
                assert forall|i: int| 0 <= i < out@.len() implies fills(
                    #[trigger] out@[i],
                    provision(views.take(k + 1), values)[i].0,
                    provision(views.take(k + 1), values)[i].1,
                ) by {
                    if i < before.len() {
                        assert(out@[i] == before[i]);
                    }
                }
            },
            None => {},
        }
        k = k + 1;
    }
    assert(input_views(inputs@).take(inputs@.len() as int) =~= input_views(inputs@));
    out
}

// ---------------------------------------------------------------------------
// Closing the sessions of a profile
// ---------------------------------------------------------------------------

/// Paths of the sessions that belong to the profile called `name`, in order.
pub open spec fn paths_of_profile(sessions: Seq<SessionView>, name: Seq<char>) -> Seq<Seq<char>>
    decreases sessions.len(),
{
    if sessions.len() == 0 {
        Seq::empty()
    } else {
        let rest = paths_of_profile(sessions.drop_last(), name);
        if sessions.last().profile_name == name {
            rest.push(sessions.last().path)
        } else {
            rest
        }
    }
}

pub open spec fn texts(v: Seq<String>) -> Seq<Seq<char>> {
    v.map_values(|s: String| s@)
}

/// `input` is asked for and the user gave a value under its key.
pub open spec fn has_value(input: CredentialInputView, values: Map<u32, Seq<char>>) -> bool {
    input.key() <= u32::MAX && values.contains_key(input.key() as u32)
}

/// Every input the user gave a value for is handed over, with that value,
/// whatever else is true of the input (hidden or not).
pub proof fn law_every_valued_input_is_provided(
    inputs: Seq<CredentialInputView>,
    values: Map<u32, Seq<char>>,
    i: int,
)
    requires
        0 <= i < inputs.len(),
        has_value(inputs[i], values),
    ensures
        exists|j: int|
            0 <= j < provision(inputs, values).len() && #[trigger] provision(inputs, values)[j] == (
                inputs[i],
                values[inputs[i].key() as u32],
            ),
    decreases inputs.len(),
{
    let rest = provision(inputs.drop_last(), values);
    if i == inputs.len() - 1 {
        assert(provision(inputs, values)[rest.len() as int] == (
            inputs[i],
            values[inputs[i].key() as u32],
        ));
    } else {
        assert(inputs.drop_last()[i] == inputs[i]);
        law_every_valued_input_is_provided(inputs.drop_last(), values, i);
        let j = choose|j: int|
            0 <= j < rest.len() && #[trigger] rest[j] == (
                inputs[i],
                values[inputs[i].key() as u32],
            );
        assert(provision(inputs, values)[j] == rest[j]);
    }
}

/// Whatever is handed over is one of the inputs asked for, with the value the
/// user gave under its key.
pub proof fn law_provided_values_come_from_inputs(
    inputs: Seq<CredentialInputView>,
    values: Map<u32, Seq<char>>,
    j: int,
)
    requires
        0 <= j < provision(inputs, values).len(),
    ensures
        exists|i: int|
            0 <= i < inputs.len() && has_value(#[trigger] inputs[i], values) && provision(
                inputs,
                values,
            )[j] == (inputs[i], values[inputs[i].key() as u32]),
    decreases inputs.len(),
{
    let rest = provision(inputs.drop_last(), values);
    let last = inputs.len() - 1;
    if j == rest.len() {
        assert(has_value(inputs[last], values));
    } else {
        law_provided_values_come_from_inputs(inputs.drop_last(), values, j);
        let i = choose|i: int|
            0 <= i < inputs.drop_last().len() && has_value(#[trigger] inputs.drop_last()[i], values)
                && rest[j] == (inputs.drop_last()[i], values[inputs.drop_last()[i].key() as u32]);
        assert(inputs.drop_last()[i] == inputs[i]);
    }
}

/// The test `has_value` against `values`, as a predicate on inputs.
pub open spec fn valued_in(values: Map<u32, Seq<char>>) -> spec_fn(CredentialInputView) -> bool {
    |x: CredentialInputView| has_value(x, values)
}

/// As many values are handed over as there are inputs with a value.
pub proof fn law_one_value_per_valued_input(inputs: Seq<CredentialInputView>, values: Map<u32, Seq<char>>)
    ensures
        provision(inputs, values).len() == inputs.filter(valued_in(values)).len(),
    decreases inputs.len(),
{
    reveal(Seq::filter);
    if inputs.len() > 0 {
        law_one_value_per_valued_input(inputs.drop_last(), values);
        assert(inputs.filter(valued_in(values)) == {
            let sub = inputs.drop_last().filter(valued_in(values));
            if valued_in(values)(inputs.last()) { sub.push(inputs.last()) } else { sub }
        });
    }
}

/// The inputs handed over are exactly those with a value, in the order the
/// session asks for them, each with the value under its key.
pub proof fn law_provision_in_input_order(inputs: Seq<CredentialInputView>, values: Map<u32, Seq<char>>)
    ensures
        provision(inputs, values).map_values(|p: (CredentialInputView, Seq<char>)| p.0) == inputs.filter(
            valued_in(values),
        ),
        forall|j: int|
            0 <= j < provision(inputs, values).len() ==> (#[trigger] provision(inputs, values)[j]).1
                == values[provision(inputs, values)[j].0.key() as u32],
    decreases inputs.len(),
{
    reveal(Seq::filter);
    if inputs.len() > 0 {
        law_provision_in_input_order(inputs.drop_last(), values);
        let rest = provision(inputs.drop_last(), values);
        let sub = inputs.drop_last().filter(valued_in(values));
        assert(inputs.filter(valued_in(values)) == if valued_in(values)(inputs.last()) {
            sub.push(inputs.last())
        } else {
            sub
        });
        if has_value(inputs.last(), values) {
            let pair = (inputs.last(), values[inputs.last().key() as u32]);
            assert(rest.push(pair).map_values(|p: (CredentialInputView, Seq<char>)| p.0) =~= rest.map_values(
                |p: (CredentialInputView, Seq<char>)| p.0,
            ).push(inputs.last()));
            assert forall|j: int| 0 <= j < rest.len() + 1 implies (#[trigger] rest.push(pair)[j]).1
                == values[rest.push(pair)[j].0.key() as u32] by {
                if j < rest.len() {
                    assert(rest.push(pair)[j] == rest[j]);
                }
            }
        }
    }
}

/// Every path chosen is the path of a session whose profile is called exactly
/// `name`.
pub proof fn law_chosen_paths_belong_to_profile(sessions: Seq<SessionView>, name: Seq<char>, j: int)
    requires
        0 <= j < paths_of_profile(sessions, name).len(),
    ensures
        exists|i: int|
            0 <= i < sessions.len() && (#[trigger] sessions[i]).profile_name == name
                && sessions[i].path == paths_of_profile(sessions, name)[j],
    decreases sessions.len(),
{
    let rest = paths_of_profile(sessions.drop_last(), name);
    if j == rest.len() {
        assert(sessions[sessions.len() - 1] == sessions.last());
    } else {
        law_chosen_paths_belong_to_profile(sessions.drop_last(), name, j);
        let i = choose|i: int|
            0 <= i < sessions.drop_last().len() && (#[trigger] sessions.drop_last()[i]).profile_name
                == name && sessions.drop_last()[i].path == rest[j];
        assert(sessions.drop_last()[i] == sessions[i]);
    }
}

/// The path of every session of the profile called `name` is chosen.
pub proof fn law_every_session_of_profile_chosen(sessions: Seq<SessionView>, name: Seq<char>, i: int)
    requires
        0 <= i < sessions.len(),
        sessions[i].profile_name == name,
    ensures
        paths_of_profile(sessions, name).contains(sessions[i].path),
    decreases sessions.len(),
{
    let rest = paths_of_profile(sessions.drop_last(), name);
    if i == sessions.len() - 1 {
        assert(paths_of_profile(sessions, name)[rest.len() as int] == sessions[i].path);
    } else {
        assert(sessions.drop_last()[i] == sessions[i]);
        law_every_session_of_profile_chosen(sessions.drop_last(), name, i);
        let j = choose|j: int| 0 <= j < rest.len() && rest[j] == sessions[i].path;
        assert(paths_of_profile(sessions, name)[j] == rest[j]);
    }
}

/// Whether a session belongs to the profile called exactly `name`.
pub open spec fn named(name: Seq<char>) -> spec_fn(SessionView) -> bool {
    |s: SessionView| s.profile_name == name
}

/// The path of a session.
pub open spec fn path_of(s: SessionView) -> Seq<char> {
    s.path
}

/// The paths chosen are those of the sessions of the profile called `name`,
/// in the order the sessions are listed, and no others.
pub proof fn law_chosen_paths_in_session_order(sessions: Seq<SessionView>, name: Seq<char>)
    ensures
        paths_of_profile(sessions, name) == sessions.filter(named(name)).map_values(
            |s: SessionView| path_of(s),
        ),
    decreases sessions.len(),
{
    reveal(Seq::filter);
    if sessions.len() > 0 {
        law_chosen_paths_in_session_order(sessions.drop_last(), name);
        let g = sessions.drop_last().filter(named(name));
        assert(sessions.filter(named(name)) == if named(name)(sessions.last()) {
            g.push(sessions.last())
        } else {
            g
        });
        if named(name)(sessions.last()) {
            assert(g.push(sessions.last()).map_values(|s: SessionView| path_of(s)) =~= g.map_values(
                |s: SessionView| path_of(s),
            ).push(sessions.last().path));
        }
    }
}

/// The paths of the sessions of the profile called `name`, to be closed one
/// after the other.
pub fn session_paths_for_profile(sessions: &Vec<Session>, name: &str) -> (r: Vec<String>)
    ensures
        texts(r@) == paths_of_profile(views_of_sessions(sessions@), name@),
{
    let ghost sv = views_of_sessions(sessions@);
    let mut out: Vec<String> = Vec::new();
    let mut k: usize = 0;
    while k < sessions.len()
        invariant
            k <= sessions.len(),
            sv == views_of_sessions(sessions@),
            texts(out@) == paths_of_profile(sv.take(k as int), name@),
        decreases sessions.len() - k,
    {
        let s = &sessions[k];
        assert(sv.take(k + 1).drop_last() =~= sv.take(k as int));
        assert(sv.take(k + 1).last() == s@);
        if str_eq(s.profile_name.as_str(), name) {
            out.push(s.path.clone());
        }
        assert(texts(out@) =~= paths_of_profile(sv.take(k + 1), name@));
        k = k + 1;
    }
    assert(sv.take(sessions@.len() as int) =~= sv);
    out
}

/// Like `session_paths_for_profile`, but a profile without sessions is the
/// error `SessionNotFound(name)`.
pub fn sessions_to_disconnect(sessions: &Vec<Session>, name: &str) -> (r: Result<
    Vec<String>,
    Error,
>)
    ensures
        paths_of_profile(views_of_sessions(sessions@), name@).len() == 0 ==> (r matches Err(e) && e@
            == ErrorView::SessionNotFound(name@)),
        paths_of_profile(views_of_sessions(sessions@), name@).len() > 0 ==> (r matches Ok(v) && texts(
            v@,
        ) == paths_of_profile(views_of_sessions(sessions@), name@)),
{
    let paths = session_paths_for_profile(sessions, name);
    if paths.len() == 0 {
        Err(Error::SessionNotFound(String::from_str(name)))
    } else {
        Ok(paths)
    }
}

/// How closing one session went: its path and, if it failed, the message.
pub struct DisconnectOutcome {
    pub path: String,
    pub failure: Option<String>,
}

/// `items` joined with `sep` between neighbours.
pub open spec fn join_with(items: Seq<Seq<char>>, sep: Seq<char>) -> Seq<char>
    decreases items.len(),
{
    if items.len() == 0 {
        Seq::empty()
    } else if items.len() == 1 {
        items[0]
    } else {
        join_with(items.drop_last(), sep) + sep + items.last()
    }
}

/// `path: message` for each failed close, in order.
pub open spec fn failure_lines(outcomes: Seq<DisconnectOutcome>) -> Seq<Seq<char>>
    decreases outcomes.len(),
{
    if outcomes.len() == 0 {
        Seq::empty()
    } else {
        let rest = failure_lines(outcomes.drop_last());
        match outcomes.last().failure {
            Some(m) => rest.push(outcomes.last().path@ + ": "@ + m@),
            None => rest,
        }
    }
}

/// Closing a profile's sessions succeeded when at least one closed; when
/// none did, the error lists every failure.
pub fn summarize_disconnects(outcomes: &Vec<DisconnectOutcome>) -> (r: Result<(), Error>)
    ensures
        (exists|i: int| 0 <= i < outcomes@.len() && (#[trigger] outcomes@[i]).failure is None)
            ==> r is Ok,
        (forall|i: int| 0 <= i < outcomes@.len() ==> (#[trigger] outcomes@[i]).failure is Some)
            ==> (r matches Err(e) && e@ == (ErrorView::CommandFailed {
            stderr: "Failed to disconnect any sessions: "@ + join_with(
                failure_lines(outcomes@),
                "; "@,
            ),
            stdout: Seq::empty(),
        })),
{
    let mut errors = String::new();
    let mut listed = false;
    let mut any_ok = false;
    let mut k: usize = 0;
    while k < outcomes.len()
        invariant
            k <= outcomes.len(),
            listed == (failure_lines(outcomes@.take(k as int)).len() > 0),
            errors@ == join_with(failure_lines(outcomes@.take(k as int)), "; "@),
            any_ok == exists|i: int| 0 <= i < k && (#[trigger] outcomes@[i]).failure is None,
        decreases outcomes.len() - k,
    {
        let o = &outcomes[k];
        assert(outcomes@.take(k + 1).drop_last() =~= outcomes@.take(k as int));
        assert(outcomes@.take(k + 1).last() == *o);
        match &o.failure {
            Some(m) => {
                let ghost prev = failure_lines(outcomes@.take(k as int));
                if listed {
                    errors.append("; ");
                }
                errors.append(o.path.as_str());
                errors.append(": ");
                errors.append(m.as_str());
                proof {
                    let now = failure_lines(outcomes@.take(k + 1));
                    assert(now == prev.push(o.path@ + ": "@ + m@));
                    assert(now.drop_last() =~= prev);
                    if prev.len() == 0 {
                        assert(errors@ =~= now[0]);
                    } else {
                        assert(errors@ =~= join_with(prev, "; "@) + "; "@ + now.last());
                    }
                }
                listed = true;
            },
            None => {
                any_ok = true;
            },
        }
        k = k + 1;
    }
    assert(outcomes@.take(outcomes@.len() as int) =~= outcomes@);
    if any_ok {
        Ok(())
    } else {
        Err(
            Error::CommandFailed {
                stderr: joined("Failed to disconnect any sessions: ", errors.as_str()),
                stdout: String::new(),
            },
        )
    }
}

// ---------------------------------------------------------------------------
// Reading the outcome of a command
// ---------------------------------------------------------------------------

/// Error for a `session-start` that failed with the given output: an
/// authentication failure when the error output speaks of authentication.
pub open spec fn session_start_error(stderr: Seq<char>, stdout: Seq<char>) -> ErrorView {
    if contains_text(stderr, "authentication"@) || contains_text(stderr, "auth"@) {
        ErrorView::AuthenticationFailed(stderr)
    } else {
        ErrorView::CommandFailed { stderr, stdout }
    }
}

/// The error for a failed `session-start`.
pub fn session_start_failure(stderr: String, stdout: String) -> (e: Error)
    ensures
        e@ == session_start_error(stderr@, stdout@),
{
    let text = chars_of(stderr.as_str());
    if contains_str(&text, "authentication") || contains_str(&text, "auth") {
        Error::AuthenticationFailed(stderr)
    } else {
        Error::CommandFailed { stderr, stdout }
    }
}

/// Whether a configuration dump asks for a static challenge (a one-time
/// code typed with the password).
pub fn requires_static_challenge(config_json: &str) -> (b: bool)
    ensures
        b == contains_text(config_json@, "\"static-challenge\""@),
{
    let text = chars_of(config_json);
    contains_str(&text, "\"static-challenge\"")
}

/// Whether `name` is among the activatable service names `services`.
pub fn lists_service(services: &Vec<String>, name: &str) -> (b: bool)
    ensures
        b == exists|i: int| 0 <= i < services@.len() && (#[trigger] services@[i])@ == name@,
{
    let mut k: usize = 0;
    while k < services.len()
        invariant
            k <= services.len(),
            forall|i: int| 0 <= i < k ==> (#[trigger] services@[i])@ != name@,
        decreases services.len() - k,
    {
        if str_eq(services[k].as_str(), name) {
            return true;
        }
        k = k + 1;
    }
    false
}

} // verus!
