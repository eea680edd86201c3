//! Session status as the OpenVPN 3 session service reports it, and the
//! status a profile shows given all of its sessions.

use crate::error::{Error, ErrorView};
use crate::text::{ascii_lowercase, chars_of, is_ascii_text, contains_str, contains_text, lowercase, str_eq, to_lowercase};
use crate::types::{
    views_of_sessions, ConnectionStatus, Profile, ProfileMetadata, Session, SessionView,
};
use vstd::prelude::*;

verus! {

// ---------------------------------------------------------------------------
// Status codes of the session service
// ---------------------------------------------------------------------------

/// Status from the session service's (major, minor) code pair and the
/// lowercased status message.
pub open spec fn classify_dbus_status(major: u32, minor: u32, lower: Seq<char>) -> ConnectionStatus {
    let failed = contains_text(lower, "failed"@) || contains_text(lower, "error"@);
    if major == 2 && minor == 4 {
        ConnectionStatus::Connecting
    } else if major == 2 && minor == 7 {
        ConnectionStatus::Connected
    } else if major == 2 && (minor == 6 || minor == 12 || minor == 15) {
        ConnectionStatus::Connecting
    } else if major == 2 && (minor == 10 || minor == 11) {
        ConnectionStatus::Failed
    } else if major == 2 && (minor == 9 || minor == 8 || minor == 16) {
        ConnectionStatus::Disconnected
    } else if major == 3 {
        if failed {
            ConnectionStatus::Failed
        } else {
            ConnectionStatus::Disconnected
        }
    } else if failed {
        ConnectionStatus::Failed
    } else if contains_text(lower, "connecting"@) {
        ConnectionStatus::Connecting
    } else {
        ConnectionStatus::Disconnected
    }
}

/// The code pairs with a fixed status, whatever the message says.
pub open spec fn fixed_code(major: u32, minor: u32) -> bool {
    major == 2 && (minor == 4 || minor == 6 || minor == 7 || minor == 8 || minor == 9 || minor == 10
        || minor == 11 || minor == 12 || minor == 15 || minor == 16)
}

/// For a code pair without a fixed status, a message that mentions a failure
/// or an error means the session failed, and only such a message does.
pub proof fn law_failure_message_means_failed(major: u32, minor: u32, lower: Seq<char>)
    requires
        !fixed_code(major, minor),
    ensures
        (contains_text(lower, "failed"@) || contains_text(lower, "error"@)) <==> classify_dbus_status(
            major,
            minor,
            lower,
        ) == ConnectionStatus::Failed,
{
}

/// For a code pair without a fixed status and a message that mentions no
/// failure or error, the session is connecting exactly when the code's major
/// part is not 3 and the message says "connecting"; else it is disconnected.
pub proof fn law_other_messages_connecting_or_disconnected(major: u32, minor: u32, lower: Seq<char>)
    requires
        !fixed_code(major, minor),
        !contains_text(lower, "failed"@),
        !contains_text(lower, "error"@),
    ensures
        classify_dbus_status(major, minor, lower) == if major != 3 && contains_text(
            lower,
            "connecting"@,
        ) {
            ConnectionStatus::Connecting
        } else {
            ConnectionStatus::Disconnected
        },
{
}

/// The code pairs with a fixed status ignore the message: (2,7) is connected;
/// (2,4), (2,6), (2,12), (2,15) connecting; (2,10), (2,11) failed; (2,8),
/// (2,9), (2,16) disconnected.
pub proof fn law_fixed_codes_ignore_message(major: u32, minor: u32, a: Seq<char>, b: Seq<char>)
    requires
        fixed_code(major, minor),
    ensures
        classify_dbus_status(major, minor, a) == classify_dbus_status(major, minor, b),
        (major, minor) == (2u32, 7u32) <==> classify_dbus_status(major, minor, a) == ConnectionStatus::Connected,
        classify_dbus_status(major, minor, a) == ConnectionStatus::Failed <==> (minor == 10 || minor == 11),
{
}

/// Status from the session service's code pair and message, the message
/// compared without regard to case.
pub open spec fn dbus_status(major: u32, minor: u32, message: Seq<char>) -> ConnectionStatus {
    classify_dbus_status(major, minor, lowercase(message))
}

/// Status of a session from the service's code pair and lowercased message.
pub fn classify_status_code(major: u32, minor: u32, lower: &str) -> (r: ConnectionStatus)
    ensures
        r == classify_dbus_status(major, minor, lower@),
{
    match (major, minor) {
        (2, 4) => ConnectionStatus::Connecting,
        (2, 7) => ConnectionStatus::Connected,
        (2, 6) | (2, 12) | (2, 15) => ConnectionStatus::Connecting,
        (2, 10) | (2, 11) => ConnectionStatus::Failed,
        (2, 9) | (2, 8) | (2, 16) => ConnectionStatus::Disconnected,
        (3, _) => {
            let l = chars_of(lower);
            if contains_str(&l, "failed") || contains_str(&l, "error") {
                ConnectionStatus::Failed
            } else {
                ConnectionStatus::Disconnected
            }
        },
        _ => {
            let l = chars_of(lower);
            if contains_str(&l, "failed") || contains_str(&l, "error") {
                ConnectionStatus::Failed
            } else if contains_str(&l, "connecting") {
                ConnectionStatus::Connecting
            } else {
                ConnectionStatus::Disconnected
            }
        },
    }
}

/// Status of a session from the service's `status` property: major and minor
/// code and message.
pub fn status_from_dbus(major: u32, minor: u32, message: &str) -> (r: ConnectionStatus)
    ensures
        r == dbus_status(major, minor, message@),
        is_ascii_text(message@) ==> r == classify_dbus_status(major, minor, ascii_lowercase(message@)),
{
    let lower = to_lowercase(message);
    classify_status_code(major, minor, lower.as_str())
}

// ---------------------------------------------------------------------------
// Status of a profile
// ---------------------------------------------------------------------------

/// The session at index `i` belongs to the profile called `name`.
pub open spec fn session_of(sessions: Seq<SessionView>, i: int, name: Seq<char>) -> bool {
    0 <= i < sessions.len() && sessions[i].profile_name == name
}

/// `st` is the status a profile called `name` shows: the highest-ranked status
/// among its sessions (Connected > Connecting > Failed > Disconnected), or
/// Disconnected when it has none.
pub open spec fn is_profile_status(sessions: Seq<SessionView>, name: Seq<char>, st: ConnectionStatus) -> bool {
    &&& forall|i: int| #[trigger] session_of(sessions, i, name) ==> sessions[i].status.rank() <= st.rank()
    &&& (exists|i: int| #[trigger] session_of(sessions, i, name) && sessions[i].status == st) || (
    st == ConnectionStatus::Disconnected && forall|i: int| !#[trigger] session_of(sessions, i, name))
}

/// At most one status is the status of a profile.
pub proof fn lemma_profile_status_unique(
    sessions: Seq<SessionView>,
    name: Seq<char>,
    a: ConnectionStatus,
    b: ConnectionStatus,
)
    requires
        is_profile_status(sessions, name, a),
        is_profile_status(sessions, name, b),
    ensures
        a == b,
{
    if exists|i: int| #[trigger] session_of(sessions, i, name) && sessions[i].status == a {
        let i = choose|i: int| #[trigger] session_of(sessions, i, name) && sessions[i].status == a;
        assert(a.rank() <= b.rank());
        if exists|j: int| #[trigger] session_of(sessions, j, name) && sessions[j].status == b {
            let j = choose|j: int| #[trigger] session_of(sessions, j, name) && sessions[j].status == b;
            assert(b.rank() <= a.rank());
        } else {
            assert(!session_of(sessions, i, name));
        }
    } else {
        if exists|j: int| #[trigger] session_of(sessions, j, name) && sessions[j].status == b {
            let j = choose|j: int| #[trigger] session_of(sessions, j, name) && sessions[j].status == b;
            assert(!session_of(sessions, j, name));
        }
    }
}

/// A profile with a connected session shows Connected, whatever its other
/// sessions are doing.
pub proof fn law_connected_session_wins(
    sessions: Seq<SessionView>,
    name: Seq<char>,
    i: int,
    st: ConnectionStatus,
)
    requires
        session_of(sessions, i, name),
        sessions[i].status == ConnectionStatus::Connected,
        is_profile_status(sessions, name, st),
    ensures
        st == ConnectionStatus::Connected,
{
    assert(sessions[i].status.rank() <= st.rank());
}

/// A profile without sessions shows Disconnected.
pub proof fn law_no_session_disconnected(sessions: Seq<SessionView>, name: Seq<char>, st: ConnectionStatus)
    requires
        forall|i: int| 0 <= i < sessions.len() ==> (#[trigger] sessions[i]).profile_name != name,
        is_profile_status(sessions, name, st),
    ensures
        st == ConnectionStatus::Disconnected,
{
    if exists|i: int| #[trigger] session_of(sessions, i, name) && sessions[i].status == st {
        let i = choose|i: int| #[trigger] session_of(sessions, i, name) && sessions[i].status == st;
        assert(sessions[i].profile_name != name);
    }
}

/// Sessions of other profiles do not change the status a profile shows.
pub proof fn law_other_profiles_irrelevant(
    sessions: Seq<SessionView>,
    other: SessionView,
    name: Seq<char>,
    st: ConnectionStatus,
)
    requires
        other.profile_name != name,
        is_profile_status(sessions, name, st),
    ensures
        is_profile_status(sessions.push(other), name, st),
{
    let ext = sessions.push(other);
    assert forall|i: int| #[trigger] session_of(ext, i, name) implies ext[i].status.rank() <= st.rank() by {
        assert(i < sessions.len());
        assert(session_of(sessions, i, name));
    }
    if exists|i: int| #[trigger] session_of(sessions, i, name) && sessions[i].status == st {
        let i = choose|i: int| #[trigger] session_of(sessions, i, name) && sessions[i].status == st;
        assert(session_of(ext, i, name) && ext[i].status == st);
    } else {
        assert forall|i: int| !#[trigger] session_of(ext, i, name) by {
            if 0 <= i < sessions.len() {
                assert(!session_of(sessions, i, name));
            }
        }
    }
}

/// The status a profile called `name` shows, given all sessions.
pub fn profile_status(sessions: &Vec<Session>, name: &str) -> (r: ConnectionStatus)
    ensures
        is_profile_status(views_of_sessions(sessions@), name@, r),
{
    let ghost sv = views_of_sessions(sessions@);
    let mut best = ConnectionStatus::Disconnected;
    let mut found = false;
    let mut i: usize = 0;
    while i < sessions.len()
        invariant
            i <= sessions.len(),
            sv == views_of_sessions(sessions@),
            forall|j: int| 0 <= j < i && #[trigger] session_of(sv, j, name@) ==> sv[j].status.rank() <= best.rank(),
            found ==> exists|j: int| 0 <= j < i && #[trigger] session_of(sv, j, name@) && sv[j].status == best,
            !found ==> best == ConnectionStatus::Disconnected && forall|j: int| 0 <= j < i ==> !#[trigger] session_of(sv, j, name@),
        decreases sessions.len() - i,
    {
        let s = &sessions[i];
        assert(sv[i as int] == s@);
        if str_eq(s.profile_name.as_str(), name) {
            if !found || s.status.priority() >= best.priority() {
                best = s.status;
            }
            found = true;
            assert(session_of(sv, i as int, name@));
        }
        i = i + 1;
    }
    best
}

/// A profile with the status its sessions give it.
pub fn assemble_profile(
    name: String,
    path: String,
    metadata: ProfileMetadata,
    sessions: &Vec<Session>,
) -> (r: Profile)
    ensures
        r.name@ == name@,
        r.path@ == path@,
        r.metadata@ == metadata@,
        is_profile_status(views_of_sessions(sessions@), name@, r.status),
{
    let status = profile_status(sessions, name.as_str());
    Profile { name, path, status, metadata }
}

/// What a profile listing holds for one profile.
pub struct ProfileRecord {
    pub path: String,
    pub name: String,
    pub metadata: ProfileMetadata,
}

/// `p` is the profile made from `rec` given the sessions `sessions`.
pub open spec fn made_from(p: Profile, rec: ProfileRecord, sessions: Seq<SessionView>) -> bool {
    &&& p.name@ == rec.name@
    &&& p.path@ == rec.path@
    &&& p.metadata@ == rec.metadata@
    &&& is_profile_status(sessions, rec.name@, p.status)
}

/// The profiles of a listing, in its order, each with the status its sessions
/// give it.
pub fn profiles_from_records(records: Vec<ProfileRecord>, sessions: &Vec<Session>) -> (r: Vec<
    Profile,
>)
    ensures
        r@.len() == records@.len(),
        forall|i: int|
            0 <= i < r@.len() ==> made_from(#[trigger] r@[i], records@[i], views_of_sessions(sessions@)),
{
    let mut out: Vec<Profile> = Vec::new();
    let mut k: usize = 0;
    while k < records.len()
        invariant
            k <= records@.len(),
            out@.len() == k,
            forall|i: int|
                0 <= i < k ==> made_from(#[trigger] out@[i], records@[i], views_of_sessions(sessions@)),
        decreases records.len() - k,
    {
        let rec = &records[k];
        let p = assemble_profile(
            rec.name.clone(),
            rec.path.clone(),
            rec.metadata.duplicate(),
            sessions,
        );
        out.push(p);
        k = k + 1;
    }
    out
}

// ---------------------------------------------------------------------------
// Looking a profile up by name
// ---------------------------------------------------------------------------

/// The first profile called `name`, or `ProfileNotFound(name)`.
pub fn find_profile(profiles: Vec<Profile>, name: &str) -> (r: Result<Profile, Error>)
    ensures
        match r {
            Ok(p) => exists|i: int|
                0 <= i < profiles@.len() && p@ == #[trigger] profiles@[i]@ && p.name@ == name@
                    && forall|j: int| 0 <= j < i ==> #[trigger] profiles@[j].name@ != name@,
            Err(e) => e@ == ErrorView::ProfileNotFound(name@) && forall|i: int|
                0 <= i < profiles@.len() ==> #[trigger] profiles@[i].name@ != name@,
        },
{
    let ghost ps = profiles@;
    let mut i: usize = 0;
    while i < profiles.len()
        invariant
            ps == profiles@,
            i <= profiles.len(),
            forall|j: int| 0 <= j < i ==> #[trigger] ps[j].name@ != name@,
        decreases profiles.len() - i,
    {
        if str_eq(profiles[i].name.as_str(), name) {
            let mut profiles = profiles;
            let p = profiles.swap_remove(i);
            assert(p@ == ps[i as int]@);
            return Ok(p);
        }
        i = i + 1;
    }
    Err(Error::ProfileNotFound(String::from_str(name)))
}

} // verus!
