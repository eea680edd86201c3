//! Plain data of the applet: connection status, profiles, sessions and the
//! credentials a session asks for, each with its mathematical view.

use std::collections::HashMap;
use vstd::prelude::*;

verus! {

/// State of a VPN connection as the applet shows it.
#[derive(Debug, Clone, Copy, PartialEq, Eq, Structural)]
pub enum ConnectionStatus {
    Disconnected,
    Connecting,
    Connected,
    Failed,
}

impl ConnectionStatus {
    /// A session in this state holds (or is about to hold) the tunnel.
    pub open spec fn spec_is_active(self) -> bool {
        self == ConnectionStatus::Connected || self == ConnectionStatus::Connecting
    }

    /// Rank used to pick the most telling status of several sessions:
    /// Connected > Connecting > Failed > Disconnected.
    pub open spec fn rank(self) -> int {
        match self {
            ConnectionStatus::Connected => 3,
            ConnectionStatus::Connecting => 2,
            ConnectionStatus::Failed => 1,
            ConnectionStatus::Disconnected => 0,
        }
    }

    /// Whether the connection is up or being brought up.
    pub fn is_active(&self) -> (b: bool)
        ensures
            b == self.spec_is_active(),
    {
        match self {
            ConnectionStatus::Connected | ConnectionStatus::Connecting => true,
            _ => false,
        }
    }

    /// Whether the connection is being brought up.
    pub fn is_connecting(&self) -> (b: bool)
        ensures
            b == (*self == ConnectionStatus::Connecting),
    {
        match self {
            ConnectionStatus::Connecting => true,
            _ => false,
        }
    }

    /// The rank of this status as a number.
    pub fn priority(&self) -> (r: u8)
        ensures
            r == self.rank(),
    {
        match self {
            ConnectionStatus::Connected => 3,
            ConnectionStatus::Connecting => 2,
            ConnectionStatus::Failed => 1,
            ConnectionStatus::Disconnected => 0,
        }
    }
}

/// Bookkeeping that OpenVPN 3 keeps for a configuration profile.
#[derive(Debug, Clone)]
pub struct ProfileMetadata {
    pub valid: bool,
    pub imported: String,
    pub last_used: String,
    pub use_count: u32,
}

pub struct ProfileMetadataView {
    pub valid: bool,
    pub imported: Seq<char>,
    pub last_used: Seq<char>,
    pub use_count: u32,
}

impl View for ProfileMetadata {
    type V = ProfileMetadataView;

    open spec fn view(&self) -> ProfileMetadataView {
        ProfileMetadataView {
            valid: self.valid,
            imported: self.imported@,
            last_used: self.last_used@,
            use_count: self.use_count,
        }
    }
}

impl ProfileMetadata {
    /// A copy of this metadata.
    pub fn duplicate(&self) -> (r: Self)
        ensures
            r@ == self@,
    {
        ProfileMetadata {
            valid: self.valid,
            imported: self.imported.clone(),
            last_used: self.last_used.clone(),
            use_count: self.use_count,
        }
    }
}

/// A configuration profile with the status of its sessions.
#[derive(Debug, Clone)]
pub struct Profile {
    pub name: String,
    pub path: String,
    pub status: ConnectionStatus,
    pub metadata: ProfileMetadata,
}

pub struct ProfileView {
    pub name: Seq<char>,
    pub path: Seq<char>,
    pub status: ConnectionStatus,
    pub metadata: ProfileMetadataView,
}

impl View for Profile {
    type V = ProfileView;

    open spec fn view(&self) -> ProfileView {
        ProfileView {
            name: self.name@,
            path: self.path@,
            status: self.status,
            metadata: self.metadata@,
        }
    }
}

/// A running (or starting, or failed) VPN session of a profile.
#[derive(Debug, Clone)]
pub struct Session {
    pub path: String,
    pub profile_name: String,
    pub status: ConnectionStatus,
}

pub struct SessionView {
    pub path: Seq<char>,
    pub profile_name: Seq<char>,
    pub status: ConnectionStatus,
}

impl View for Session {
    type V = SessionView;

    open spec fn view(&self) -> SessionView {
        SessionView { path: self.path@, profile_name: self.profile_name@, status: self.status }
    }
}

/// The views of a list of sessions.
pub open spec fn views_of_sessions(v: Seq<Session>) -> Seq<SessionView> {
    v.map_values(|s: Session| s@)
}

/// The text of an optional string.
pub open spec fn opt_text(o: Option<String>) -> Option<Seq<char>> {
    match o {
        Some(s) => Some(s@),
        None => None,
    }
}

/// One value a session asks the user for (a user name, a password, a token…).
#[derive(Debug, Clone)]
pub struct CredentialInput {
    pub id: u32,
    pub input_type: u32,
    pub input_group: u32,
    pub name: String,
    pub description: String,
    pub hidden: bool,
}

pub struct CredentialInputView {
    pub id: u32,
    pub input_type: u32,
    pub input_group: u32,
    pub name: Seq<char>,
    pub description: Seq<char>,
    pub hidden: bool,
}

impl View for CredentialInput {
    type V = CredentialInputView;

    open spec fn view(&self) -> CredentialInputView {
        CredentialInputView {
            id: self.id,
            input_type: self.input_type,
            input_group: self.input_group,
            name: self.name@,
            description: self.description@,
            hidden: self.hidden,
        }
    }
}

/// The key under which a credential value is kept: type, group and slot id
/// packed in decimal blocks of a thousand.
pub open spec fn unique_key(input_type: u32, input_group: u32, id: u32) -> int {
    input_type * 1000000 + input_group * 1000 + id
}

/// Inputs whose slot id and group stay below a thousand get distinct keys:
/// the key tells type, group and slot apart.
pub proof fn law_unique_key_distinguishes(
    t1: u32,
    g1: u32,
    i1: u32,
    t2: u32,
    g2: u32,
    i2: u32,
)
    requires
        g1 < 1000,
        i1 < 1000,
        g2 < 1000,
        i2 < 1000,
        unique_key(t1, g1, i1) == unique_key(t2, g2, i2),
    ensures
        t1 == t2,
        g1 == g2,
        i1 == i2,
{
    assert(t1 == t2) by (nonlinear_arith)
        requires
            t1 * 1000000 + g1 * 1000 + i1 == t2 * 1000000 + g2 * 1000 + i2,
            g1 < 1000,
            i1 < 1000,
            g2 < 1000,
            i2 < 1000,
    ;
    assert(g1 == g2) by (nonlinear_arith)
        requires
            g1 * 1000 + i1 == g2 * 1000 + i2,
            i1 < 1000,
            i2 < 1000,
    ;
}

impl CredentialInputView {
    pub open spec fn key(self) -> int {
        unique_key(self.input_type, self.input_group, self.id)
    }

    /// The key fits in a `u32`, so computing it does not overflow.
    pub open spec fn key_fits(self) -> bool {
        self.key() <= u32::MAX
    }
}

impl CredentialInput {
    /// The input described by an entry of a session's input queue: the type
    /// and group the queue was asked for, and the slot id, name, description
    /// and hiding flag of the fetched entry (whose own type and group are not
    /// used).
    pub fn from_queue_entry(
        input_type: u32,
        input_group: u32,
        entry: (u32, u32, u32, String, String, bool),
    ) -> (r: Self)
        ensures
            r.input_type == input_type,
            r.input_group == input_group,
            r.id == entry.2,
            r.name == entry.3,
            r.description == entry.4,
            r.hidden == entry.5,
    {
        let (_, _, id, name, description, hidden) = entry;
        CredentialInput { id, input_type, input_group, name, description, hidden }
    }

    /// The key under which the value for this input is kept.
    pub fn unique_id(&self) -> (r: u32)
        requires
            self@.key_fits(),
        ensures
            r == self@.key(),
    {
        self.input_type * 1000000 + self.input_group * 1000 + self.id
    }

    /// `unique_id`, or `None` where computing it would overflow.
    pub fn checked_unique_id(&self) -> (r: Option<u32>)
        ensures
            r == (if self@.key_fits() {
                Some(self@.key() as u32)
            } else {
                None::<u32>
            }),
    {
        let base: u64 = self.input_type as u64 * 1000000 + self.input_group as u64 * 1000
            + self.id as u64;
        if base > 4294967295u64 {
            None
        } else {
            Some(base as u32)
        }
    }
}

/// Values the user typed, keyed by `CredentialInput::unique_id`.
#[derive(Debug, Clone)]
pub struct Credentials {
    pub values: HashMap<u32, String>,
}

impl Credentials {
    /// The mapping from keys to typed values.
    pub open spec fn entries(&self) -> Map<u32, Seq<char>> {
        self.values@.map_values(|v: String| v@)
    }

    /// No values yet.
    pub fn new() -> (r: Self)
        ensures
            r.values@ == Map::<u32, String>::empty(),
    {
        Credentials { values: HashMap::new() }
    }

    /// Sets the value for `id`, replacing an earlier one.
    pub fn add(&mut self, id: u32, value: String)
        ensures
            final(self).values@ == old(self).values@.insert(id, value),
    {
        self.values.insert(id, value);
    }
}

/// User name and password for `openvpn3 session-start`, with an optional
/// one-time code.
#[derive(Debug, Clone)]
pub struct LoginCredentials {
    pub username: String,
    pub password: String,
    pub totp: Option<String>,
}

/// The text typed into `session-start`: user name, password and, if there is
/// one, the one-time code, each on a line of its own.
pub open spec fn stdin_text(username: Seq<char>, password: Seq<char>, totp: Option<Seq<char>>) -> Seq<char> {
    let base = username + "\n"@ + password + "\n"@;
    match totp {
        Some(code) => base + code + "\n"@,
        None => base,
    }
}

impl LoginCredentials {
    pub open spec fn totp_text(&self) -> Option<Seq<char>> {
        match self.totp {
            Some(t) => Some(t@),
            None => None,
        }
    }

    /// Credentials without a one-time code.
    pub fn new(username: &str, password: &str) -> (r: Self)
        ensures
            r.username@ == username@,
            r.password@ == password@,
            r.totp is None,
    {
        LoginCredentials {
            username: String::from_str(username),
            password: String::from_str(password),
            totp: None,
        }
    }

    /// The same credentials with a one-time code.
    pub fn with_totp(self, totp: &str) -> (r: Self)
        ensures
            r.username == self.username,
            r.password == self.password,
            r.totp_text() == Some(totp@),
    {
        LoginCredentials { username: self.username, password: self.password, totp: Some(String::from_str(totp)) }
    }

    /// Both the user name and the password must be given.
    pub fn validate(&self) -> (r: Result<(), String>)
        ensures
            self.username@.len() == 0 ==> (r matches Err(m) && m@ == "Username cannot be empty"@),
            self.username@.len() > 0 && self.password@.len() == 0 ==> (r matches Err(m) && m@
                == "Password cannot be empty"@),
            self.username@.len() > 0 && self.password@.len() > 0 ==> r is Ok,
    {
        if self.username.as_str().is_empty() {
            return Err(String::from_str("Username cannot be empty"));
        }
        if self.password.as_str().is_empty() {
            return Err(String::from_str("Password cannot be empty"));
        }
        Ok(())
    }

    /// The text to type into `session-start`.
    pub fn format_for_stdin(&self) -> (r: String)
        ensures
            r@ == stdin_text(self.username@, self.password@, self.totp_text()),
    {
        let mut r = self.username.clone();
        r.append("\n");
        r.append(self.password.as_str());
        r.append("\n");
        match &self.totp {
            Some(code) => {
                r.append(code.as_str());
                r.append("\n");
            },
            None => {},
        }
        r
    }
}

} // verus!
