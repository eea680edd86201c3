//! The applet as a state machine: what it shows (the popup, the profiles and
//! at most one dialog) and how each message changes that and which commands
//! it hands to the runtime that talks to OpenVPN 3.

use crate::client::keys_fit;
use crate::text::{is_blank, is_blank_str, trim, trimmed};
use crate::types::{opt_text, ConnectionStatus, CredentialInput, Credentials, Profile};
use std::collections::HashMap;
use vstd::prelude::*;

verus! {

/// Seconds to wait before refreshing again while a profile is connecting.
pub const AUTO_REFRESH_INTERVAL_SECS: u64 = 3;

/// Milliseconds to wait after creating a tunnel before asking what
/// credentials it needs.
pub const REQUIREMENTS_POLL_DELAY_MS: u64 = 500;

// ---------------------------------------------------------------------------
// Dialogs
// ---------------------------------------------------------------------------

/// Dialog for importing a configuration file.
#[derive(Debug)]
pub struct ImportDialog {
    pub id: u64,
    pub file_path: String,
    pub custom_name: String,
}

impl ImportDialog {
    /// An empty import dialog.
    pub fn new(id: u64) -> (d: Self)
        ensures
            d.id == id,
            d.file_path@ == Seq::<char>::empty(),
            d.custom_name@ == Seq::<char>::empty(),
    {
        ImportDialog { id, file_path: String::new(), custom_name: String::new() }
    }
}

/// Dialog that shows one field for each credential the server asked for.
#[derive(Debug)]
pub struct DynamicConnectDialog {
    pub id: u64,
    pub profile_name: String,
    pub session_path: String,
    pub required_inputs: Vec<CredentialInput>,
    pub input_values: HashMap<u32, String>,
}

impl DynamicConnectDialog {
    /// Every required input has a value that is not blank.
    pub open spec fn complete(&self) -> bool {
        forall|i: int|
            0 <= i < self.required_inputs@.len() ==> {
                let k = (#[trigger] self.required_inputs@[i])@.key();
                &&& k <= u32::MAX
                &&& self.input_values@.contains_key(k as u32)
                &&& !is_blank(self.input_values@[k as u32]@)
            }
    }

    /// A dialog for the given inputs, with no values typed yet.
    pub fn new(
        id: u64,
        profile_name: String,
        session_path: String,
        required_inputs: Vec<CredentialInput>,
    ) -> (d: Self)
        ensures
            d.id == id,
            d.profile_name == profile_name,
            d.session_path == session_path,
            d.required_inputs == required_inputs,
            d.input_values@ == Map::<u32, String>::empty(),
    {
        DynamicConnectDialog {
            id,
            profile_name,
            session_path,
            required_inputs,
            input_values: HashMap::new(),
        }
    }

    /// Whether every required input has a value that is not blank.
    pub fn is_valid(&self) -> (b: bool)
        requires
            keys_fit(self.required_inputs@),
        ensures
            b == self.complete(),
    {
        let mut i: usize = 0;
        while i < self.required_inputs.len()
            invariant
                i <= self.required_inputs.len(),
                keys_fit(self.required_inputs@),
                forall|j: int|
                    0 <= j < i ==> {
                        let k = (#[trigger] self.required_inputs@[j])@.key();
                        &&& k <= u32::MAX
                        &&& self.input_values@.contains_key(k as u32)
                        &&& !is_blank(self.input_values@[k as u32]@)
                    },
            decreases self.required_inputs.len() - i,
        {
            let input = &self.required_inputs[i];
            assert(input@.key_fits());
            let key = input.unique_id();
            match self.input_values.get(&key) {
                Some(v) => {
                    if is_blank_str(v.as_str()) {
                        return false;
                    }
                },
                None => {
                    return false;
                },
            }
            i = i + 1;
        }
        true
    }

    /// The typed values as credentials to hand to the session.
    pub fn build_credentials(&self) -> (c: Credentials)
        ensures
            c.values@ == self.input_values@,
    {
        Credentials { values: self.input_values.clone() }
    }
}

/// Which dialog, if any, covers the profile list.
#[derive(Debug)]
pub enum DialogState {
    Default,
    Import(ImportDialog),
    DynamicConnect(DynamicConnectDialog),
    WaitingForCredentialRequirements { profile_name: String, session_path: String },
}

/// Whether OpenVPN 3 was found, and what the popup shows if so.
#[derive(Debug)]
pub enum AppState {
    Unavailable,
    Available { profiles: Vec<Profile>, dialog: DialogState },
}

/// The whole state of the applet: the open popup, if any, and the content.
#[derive(Debug)]
pub struct OpenVpn3Status {
    pub popup: Option<u64>,
    pub state: AppState,
}

// ---------------------------------------------------------------------------
// Messages and commands
// ---------------------------------------------------------------------------

/// What can happen to the applet. Identifiers of new windows and dialogs come
/// with the message that opens them.
#[derive(Debug)]
pub enum Message {
    TogglePopup { new_popup: u64 },
    PopupClosed(u64),
    ClientInitialized(bool),
    RefreshProfiles,
    ProfilesLoaded(Result<Vec<Profile>, String>),
    DeleteProfile(String),
    ProfileDeleted(String, Result<(), String>),
    DisconnectSession(String),
    SessionDisconnected(String, Result<(), String>),
    OpenImportDialog { new_dialog: u64 },
    CloseImportDialog(u64),
    ImportFilePathChanged(String),
    ImportCustomNameChanged(String),
    SubmitImport,
    ConfigImported(Result<String, String>),
    StartTunnelCreation(String),
    TunnelCreated(String, Result<String, String>),
    CheckCredentialRequirements(String, String),
    CredentialRequirementsFetched {
        profile_name: String,
        session_path: String,
        result: Result<Vec<CredentialInput>, String>,
        new_dialog: u64,
    },
    DynamicInputChanged(u32, String),
    SubmitDynamicCredentials,
    DynamicCredentialsProvided(Result<(), String>),
    CancelDynamicConnect(String),
    SessionCancelled(Result<(), String>),
    AutoRefresh,
}

/// Work for the runtime: each command is carried out outside the state
/// machine and answered, where it says so, with a message.
#[derive(Debug)]
pub enum Command {
    /// Open the popup window with this identifier.
    OpenPopup(u64),
    /// Close the popup window with this identifier.
    DestroyPopup(u64),
    /// Look for OpenVPN 3 again; answered by `ClientInitialized`.
    RetryInitialization,
    /// Load the profiles; answered by `ProfilesLoaded`.
    FetchProfiles,
    /// Wait this many seconds, then answer `AutoRefresh`.
    RefreshAfter { secs: u64 },
    /// Remove the profile; answered by `ProfileDeleted`.
    DeleteProfile(String),
    /// Close the sessions of the profile; answered by `SessionDisconnected`.
    DisconnectProfile(String),
    /// Import a configuration file; answered by `ConfigImported`.
    ImportConfig { file_path: String, name: Option<String> },
    /// Create a tunnel for the profile; answered by `TunnelCreated`.
    CreateTunnel(String),
    /// Wait, then answer `CheckCredentialRequirements`.
    CheckRequirementsAfter { profile_name: String, session_path: String, delay_ms: u64 },
    /// Ask the session what it needs; answered by `CredentialRequirementsFetched`.
    QueryRequiredInputs { profile_name: String, session_path: String },
    /// Hand the credentials over and connect; answered by `DynamicCredentialsProvided`.
    ProvideCredentialsAndConnect { session_path: String, credentials: Credentials },
    /// Close the session being set up; answered by `SessionCancelled`.
    CancelSession(String),
}

// ---------------------------------------------------------------------------
// Specification of the transitions
// ---------------------------------------------------------------------------

/// The dialog, when OpenVPN 3 is available.
pub open spec fn dialog_of(s: AppState) -> Option<DialogState> {
    match s {
        AppState::Available { dialog, .. } => Some(dialog),
        AppState::Unavailable => None,
    }
}

/// `s` with its dialog replaced by `d`; nothing happens while unavailable.
pub open spec fn with_dialog(s: AppState, d: DialogState) -> AppState {
    match s {
        AppState::Available { profiles, .. } => AppState::Available { profiles, dialog: d },
        AppState::Unavailable => AppState::Unavailable,
    }
}

/// No dialog is open (and OpenVPN 3 is available).
pub open spec fn dialog_closed(s: AppState) -> bool {
    dialog_of(s) matches Some(DialogState::Default)
}

/// Some profile is connecting.
pub open spec fn any_connecting(ps: Seq<Profile>) -> bool {
    exists|i: int| 0 <= i < ps.len() && (#[trigger] ps[i]).status == ConnectionStatus::Connecting
}

/// Some profile is connected.
pub open spec fn any_connected(ps: Seq<Profile>) -> bool {
    exists|i: int| 0 <= i < ps.len() && (#[trigger] ps[i]).status == ConnectionStatus::Connected
}

/// The panel shows the filled icon: some listed profile is connected (the
/// outline stands for no connection).
pub open spec fn shows_filled_icon(s: OpenVpn3Status) -> bool {
    s.state matches AppState::Available { profiles, .. } && any_connected(profiles@)
}

/// `post` is `pre` with the state replaced, and `cmds` are the commands.
pub open spec fn only_state(pre: OpenVpn3Status, post: OpenVpn3Status, state: AppState) -> bool {
    post.popup == pre.popup && post.state == state
}

/// Nothing changes and nothing is done.
pub open spec fn ignored(pre: OpenVpn3Status, post: OpenVpn3Status, cmds: Seq<Command>) -> bool {
    post == pre && cmds.len() == 0
}

/// Only the command `c` is issued; the state stays.
pub open spec fn issues(pre: OpenVpn3Status, post: OpenVpn3Status, cmds: Seq<Command>, c: Command) -> bool {
    post == pre && cmds =~= seq![c]
}

pub open spec fn toggled_popup(pre: OpenVpn3Status, new_popup: u64, post: OpenVpn3Status, cmds: Seq<Command>) -> bool {
    match pre.popup {
        Some(p) => post.popup is None && post.state == pre.state && cmds =~= seq![
            Command::DestroyPopup(p),
        ],
        None => post.popup == Some(new_popup) && post.state == pre.state && cmds =~= seq![
            Command::OpenPopup(new_popup),
            match pre.state {
                AppState::Available { .. } => Command::FetchProfiles,
                AppState::Unavailable => Command::RetryInitialization,
            },
        ],
    }
}

pub open spec fn popup_closed(pre: OpenVpn3Status, id: u64, post: OpenVpn3Status, cmds: Seq<Command>) -> bool {
    &&& post.state == pre.state
    &&& post.popup == (if pre.popup == Some(id) {
        None
    } else {
        pre.popup
    })
    &&& cmds.len() == 0
}

pub open spec fn profiles_loaded(
    pre: OpenVpn3Status,
    result: Result<Vec<Profile>, String>,
    post: OpenVpn3Status,
    cmds: Seq<Command>,
) -> bool {
    match result {
        Ok(ps) => {
            &&& only_state(
                pre,
                post,
                match pre.state {
                    AppState::Available { dialog, .. } => AppState::Available {
                        profiles: ps,
                        dialog,
                    },
                    AppState::Unavailable => AppState::Available {
                        profiles: ps,
                        dialog: DialogState::Default,
                    },
                },
            )
            &&& cmds =~= if any_connecting(ps@) {
                seq![Command::RefreshAfter { secs: AUTO_REFRESH_INTERVAL_SECS }]
            } else {
                Seq::empty()
            }
        },
        Err(_) => ignored(pre, post, cmds),
    }
}

/// Profiles other than the one called `name`, in order.
pub open spec fn without_named(ps: Seq<Profile>, name: Seq<char>) -> Seq<Profile> {
    ps.filter(|p: Profile| p.name@ != name)
}

pub open spec fn profile_deleted(
    pre: OpenVpn3Status,
    name: String,
    result: Result<(), String>,
    post: OpenVpn3Status,
    cmds: Seq<Command>,
) -> bool {
    match (result, pre.state) {
        (Ok(_), AppState::Available { profiles, dialog }) => {
            &&& post.popup == pre.popup
            &&& cmds.len() == 0
            &&& post.state matches AppState::Available { profiles: ps, dialog: d }
            &&& d == dialog
            &&& ps@ == without_named(profiles@, name@)
        },
        _ => ignored(pre, post, cmds),
    }
}

pub open spec fn import_dialog_opened(pre: OpenVpn3Status, id: u64, post: OpenVpn3Status, cmds: Seq<Command>) -> bool {
    if dialog_closed(pre.state) {
        &&& post.popup == pre.popup
        &&& cmds.len() == 0
        &&& post.state matches AppState::Available { profiles, dialog: DialogState::Import(d) }
        &&& pre.state matches AppState::Available { profiles: old_profiles, .. }
        &&& profiles == old_profiles
        &&& d.id == id
        &&& d.file_path@ == Seq::<char>::empty()
        &&& d.custom_name@ == Seq::<char>::empty()
    } else {
        ignored(pre, post, cmds)
    }
}

pub open spec fn import_dialog_closed(pre: OpenVpn3Status, id: u64, post: OpenVpn3Status, cmds: Seq<Command>) -> bool {
    if dialog_of(pre.state) matches Some(DialogState::Import(d)) && d.id == id {
        only_state(pre, post, with_dialog(pre.state, DialogState::Default)) && cmds.len() == 0
    } else {
        ignored(pre, post, cmds)
    }
}

pub open spec fn import_path_changed(pre: OpenVpn3Status, path: String, post: OpenVpn3Status, cmds: Seq<Command>) -> bool {
    match dialog_of(pre.state) {
        Some(DialogState::Import(d)) => only_state(
            pre,
            post,
            with_dialog(
                pre.state,
                DialogState::Import(ImportDialog { id: d.id, file_path: path, custom_name: d.custom_name }),
            ),
        ) && cmds.len() == 0,
        _ => ignored(pre, post, cmds),
    }
}

pub open spec fn import_name_changed(pre: OpenVpn3Status, name: String, post: OpenVpn3Status, cmds: Seq<Command>) -> bool {
    match dialog_of(pre.state) {
        Some(DialogState::Import(d)) => only_state(
            pre,
            post,
            with_dialog(
                pre.state,
                DialogState::Import(ImportDialog { id: d.id, file_path: d.file_path, custom_name: name }),
            ),
        ) && cmds.len() == 0,
        _ => ignored(pre, post, cmds),
    }
}

/// The name a profile is imported under when the dialog holds `custom`:
/// none when it is blank, else the text trimmed.
pub open spec fn chosen_name(custom: Seq<char>) -> Option<Seq<char>> {
    if is_blank(custom) {
        None
    } else {
        Some(trim(custom))
    }
}

pub open spec fn import_submitted(pre: OpenVpn3Status, post: OpenVpn3Status, cmds: Seq<Command>) -> bool {
    match dialog_of(pre.state) {
        Some(DialogState::Import(d)) => if is_blank(d.file_path@) {
            ignored(pre, post, cmds)
        } else {
            &&& only_state(pre, post, with_dialog(pre.state, DialogState::Default))
            &&& cmds.len() == 1
            &&& cmds[0] matches Command::ImportConfig { file_path, name }
            &&& file_path == d.file_path
            &&& opt_text(name) == chosen_name(d.custom_name@)
        },
        _ => ignored(pre, post, cmds),
    }
}

pub open spec fn tunnel_created(
    pre: OpenVpn3Status,
    profile_name: String,
    result: Result<String, String>,
    post: OpenVpn3Status,
    cmds: Seq<Command>,
) -> bool {
    match result {
        Ok(session_path) => {
            &&& only_state(
                pre,
                post,
                with_dialog(
                    pre.state,
                    DialogState::WaitingForCredentialRequirements { profile_name, session_path },
                ),
            )
            &&& cmds =~= seq![
                Command::CheckRequirementsAfter {
                    profile_name,
                    session_path,
                    delay_ms: REQUIREMENTS_POLL_DELAY_MS,
                },
            ]
        },
        Err(_) => ignored(pre, post, cmds),
    }
}

pub open spec fn requirements_fetched(
    pre: OpenVpn3Status,
    profile_name: String,
    session_path: String,
    result: Result<Vec<CredentialInput>, String>,
    id: u64,
    post: OpenVpn3Status,
    cmds: Seq<Command>,
) -> bool {
    &&& cmds.len() == 0
    &&& post.popup == pre.popup
    &&& match result {
        Ok(inputs) => match (pre.state, post.state) {
            (
                AppState::Available { profiles, .. },
                AppState::Available { profiles: ps, dialog: DialogState::DynamicConnect(d) },
            ) => {
                &&& ps == profiles
                &&& d.id == id
                &&& d.profile_name == profile_name
                &&& d.session_path == session_path
                &&& d.required_inputs == inputs
                &&& d.input_values@ == Map::<u32, String>::empty()
            },
            (AppState::Unavailable, AppState::Unavailable) => true,
            _ => false,
        },
        Err(_) => post.state == with_dialog(pre.state, DialogState::Default),
    }
}

pub open spec fn input_changed(pre: OpenVpn3Status, id: u32, value: String, post: OpenVpn3Status, cmds: Seq<Command>) -> bool {
    match (dialog_of(pre.state), dialog_of(post.state)) {
        (Some(DialogState::DynamicConnect(d)), Some(DialogState::DynamicConnect(e))) => {
            &&& post.popup == pre.popup
            &&& cmds.len() == 0
            &&& post.state == with_dialog(pre.state, DialogState::DynamicConnect(e))
            &&& e.id == d.id
            &&& e.profile_name == d.profile_name
            &&& e.session_path == d.session_path
            &&& e.required_inputs == d.required_inputs
            &&& e.input_values@ == d.input_values@.insert(id, value)
        },
        (Some(DialogState::DynamicConnect(_)), _) => false,
        _ => ignored(pre, post, cmds),
    }
}

pub open spec fn credentials_submitted(pre: OpenVpn3Status, post: OpenVpn3Status, cmds: Seq<Command>) -> bool {
    match dialog_of(pre.state) {
        Some(DialogState::DynamicConnect(d)) => if !d.complete() {
            ignored(pre, post, cmds)
        } else {
            &&& only_state(pre, post, with_dialog(pre.state, DialogState::Default))
            &&& cmds.len() == 1
            &&& cmds[0] matches Command::ProvideCredentialsAndConnect { session_path, credentials }
            &&& session_path == d.session_path
            &&& credentials.values@ == d.input_values@
        },
        _ => ignored(pre, post, cmds),
    }
}

/// The effect of `message` on the applet: `post` and `cmds` follow from `pre`.
pub open spec fn transition(pre: OpenVpn3Status, message: Message, post: OpenVpn3Status, cmds: Seq<Command>) -> bool {
    match message {
        Message::TogglePopup { new_popup } => toggled_popup(pre, new_popup, post, cmds),
        Message::PopupClosed(id) => popup_closed(pre, id, post, cmds),
        Message::ClientInitialized(available) => if available {
            issues(pre, post, cmds, Command::FetchProfiles)
        } else {
            ignored(pre, post, cmds)
        },
        Message::RefreshProfiles => issues(pre, post, cmds, Command::FetchProfiles),
        Message::ProfilesLoaded(result) => profiles_loaded(pre, result, post, cmds),
        Message::DeleteProfile(name) => if dialog_closed(pre.state) {
            issues(pre, post, cmds, Command::DeleteProfile(name))
        } else {
            ignored(pre, post, cmds)
        },
        Message::ProfileDeleted(name, result) => profile_deleted(pre, name, result, post, cmds),
        Message::DisconnectSession(name) => if dialog_closed(pre.state) {
            issues(pre, post, cmds, Command::DisconnectProfile(name))
        } else {
            ignored(pre, post, cmds)
        },
        Message::SessionDisconnected(_, result) => if result is Ok {
            issues(pre, post, cmds, Command::FetchProfiles)
        } else {
            ignored(pre, post, cmds)
        },
        Message::OpenImportDialog { new_dialog } => import_dialog_opened(pre, new_dialog, post, cmds),
        Message::CloseImportDialog(id) => import_dialog_closed(pre, id, post, cmds),
        Message::ImportFilePathChanged(path) => import_path_changed(pre, path, post, cmds),
        Message::ImportCustomNameChanged(name) => import_name_changed(pre, name, post, cmds),
        Message::SubmitImport => import_submitted(pre, post, cmds),
        Message::ConfigImported(result) => if result is Ok {
            issues(pre, post, cmds, Command::FetchProfiles)
        } else {
            ignored(pre, post, cmds)
        },
        Message::StartTunnelCreation(name) => issues(pre, post, cmds, Command::CreateTunnel(name)),
        Message::TunnelCreated(name, result) => tunnel_created(pre, name, result, post, cmds),
        Message::CheckCredentialRequirements(profile_name, session_path) => issues(
            pre,
            post,
            cmds,
            Command::QueryRequiredInputs { profile_name, session_path },
        ),
        Message::CredentialRequirementsFetched { profile_name, session_path, result, new_dialog } =>
            requirements_fetched(pre, profile_name, session_path, result, new_dialog, post, cmds),
        Message::DynamicInputChanged(id, value) => input_changed(pre, id, value, post, cmds),
        Message::SubmitDynamicCredentials => credentials_submitted(pre, post, cmds),
        Message::DynamicCredentialsProvided(result) => if result is Ok {
            issues(pre, post, cmds, Command::FetchProfiles)
        } else {
            ignored(pre, post, cmds)
        },
        Message::CancelDynamicConnect(session_path) => {
            &&& only_state(pre, post, with_dialog(pre.state, DialogState::Default))
            &&& cmds =~= seq![Command::CancelSession(session_path)]
        },
        Message::SessionCancelled(_) => issues(pre, post, cmds, Command::FetchProfiles),
        Message::AutoRefresh => issues(pre, post, cmds, Command::FetchProfiles),
    }
}

impl Message {
    /// Messages carry only credential inputs whose keys can be computed.
    pub open spec fn wf(&self) -> bool {
        match self {
            Message::CredentialRequirementsFetched { result: Ok(inputs), .. } => keys_fit(inputs@),
            _ => true,
        }
    }
}

impl OpenVpn3Status {
    /// The credential inputs of an open credential dialog have computable keys.
    pub open spec fn wf(&self) -> bool {
        match dialog_of(self.state) {
            Some(DialogState::DynamicConnect(d)) => keys_fit(d.required_inputs@),
            _ => true,
        }
    }
}

// ---------------------------------------------------------------------------
// Executable state machine
// ---------------------------------------------------------------------------

impl OpenVpn3Status {
    /// No popup, and OpenVPN 3 not (yet) found.
    pub fn new() -> (r: Self)
        ensures
            r.popup is None,
            r.state is Unavailable,
            r.wf(),
    {
        OpenVpn3Status { popup: None, state: AppState::Unavailable }
    }

    /// The panel icon is the filled one: some profile is connected.
    pub fn icon_filled(&self) -> (b: bool)
        ensures
            b == shows_filled_icon(*self),
    {
        match &self.state {
            AppState::Available { profiles, .. } => any_profile_connected(profiles),
            AppState::Unavailable => false,
        }
    }

    fn take_state(&mut self) -> (s: AppState)
        ensures
            s == old(self).state,
            final(self).popup == old(self).popup,
            final(self).state is Unavailable,
    {
        let mut s = AppState::Unavailable;
        std::mem::swap(&mut s, &mut self.state);
        s
    }

    fn set_dialog(&mut self, d: DialogState)
        ensures
            final(self).popup == old(self).popup,
            final(self).state == with_dialog(old(self).state, d),
    {
        let s = self.take_state();
        self.state = match s {
            AppState::Available { profiles, .. } => AppState::Available { profiles, dialog: d },
            AppState::Unavailable => AppState::Unavailable,
        };
    }

    fn dialog_is_default(&self) -> (b: bool)
        ensures
            b == dialog_closed(self.state),
    {
        match &self.state {
            AppState::Available { dialog: DialogState::Default, .. } => true,
            _ => false,
        }
    }

    pub fn handle_toggle_popup(&mut self, new_popup: u64) -> (cmds: Vec<Command>)
        ensures
            toggled_popup(*old(self), new_popup, *final(self), cmds@),
    {
        match self.popup {
            Some(p) => {
                self.popup = None;
                vec![Command::DestroyPopup(p)]
            },
            None => {
                let refresh = match &self.state {
                    AppState::Available { .. } => Command::FetchProfiles,
                    AppState::Unavailable => Command::RetryInitialization,
                };
                self.popup = Some(new_popup);
                vec![Command::OpenPopup(new_popup), refresh]
            },
        }
    }

    pub fn handle_popup_closed(&mut self, id: u64) -> (cmds: Vec<Command>)
        ensures
            popup_closed(*old(self), id, *final(self), cmds@),
    {
        if self.popup == Some(id) {
            self.popup = None;
        }
        Vec::new()
    }

    pub fn handle_profiles_loaded(&mut self, result: Result<Vec<Profile>, String>) -> (cmds: Vec<
        Command,
    >)
        ensures
            profiles_loaded(*old(self), result, *final(self), cmds@),
    {
        match result {
            Ok(profiles) => {
                let mut has_connecting = false;
                let mut i: usize = 0;
                while i < profiles.len()
                    invariant
                        i <= profiles.len(),
                        has_connecting == exists|j: int|
                            0 <= j < i && (#[trigger] profiles@[j]).status
                                == ConnectionStatus::Connecting,
                    decreases profiles.len() - i,
                {
                    if profiles[i].status.is_connecting() {
                        assert(profiles@[i as int].status == ConnectionStatus::Connecting);
                        has_connecting = true;
                    }
                    i = i + 1;
                }
                let s = self.take_state();
                self.state = match s {
                    AppState::Available { dialog, .. } => AppState::Available { profiles, dialog },
                    AppState::Unavailable => AppState::Available {
                        profiles,
                        dialog: DialogState::Default,
                    },
                };
                if has_connecting {
                    vec![Command::RefreshAfter { secs: AUTO_REFRESH_INTERVAL_SECS }]
                } else {
                    Vec::new()
                }
            },
            Err(_) => Vec::new(),
        }
    }

    pub fn handle_delete_profile(&mut self, name: String) -> (cmds: Vec<Command>)
        ensures
            dialog_closed(old(self).state) ==> issues(
                *old(self),
                *final(self),
                cmds@,
                Command::DeleteProfile(name),
            ),
            !dialog_closed(old(self).state) ==> ignored(*old(self), *final(self), cmds@),
    {
        if !self.dialog_is_default() {
            return Vec::new();
        }
        vec![Command::DeleteProfile(name)]
    }

    pub fn handle_profile_deleted(&mut self, name: String, result: Result<(), String>) -> (cmds:
        Vec<Command>)
        ensures
            profile_deleted(*old(self), name, result, *final(self), cmds@),
    {
        if result.is_err() {
            return Vec::new();
        }
        let s = self.take_state();
        match s {
            AppState::Available { profiles, dialog } => {
                let kept = retain_others(profiles, name.as_str());
                self.state = AppState::Available { profiles: kept, dialog };
            },
            AppState::Unavailable => {
                self.state = AppState::Unavailable;
            },
        }
        Vec::new()
    }

    pub fn handle_disconnect_session(&mut self, name: String) -> (cmds: Vec<Command>)
        ensures
            dialog_closed(old(self).state) ==> issues(
                *old(self),
                *final(self),
                cmds@,
                Command::DisconnectProfile(name),
            ),
            !dialog_closed(old(self).state) ==> ignored(*old(self), *final(self), cmds@),
    {
        if !self.dialog_is_default() {
            return Vec::new();
        }
        vec![Command::DisconnectProfile(name)]
    }

    pub fn handle_open_import_dialog(&mut self, new_dialog: u64) -> (cmds: Vec<Command>)
        ensures
            import_dialog_opened(*old(self), new_dialog, *final(self), cmds@),
    {
        if !self.dialog_is_default() {
            return Vec::new();
        }
        self.set_dialog(DialogState::Import(ImportDialog::new(new_dialog)));
        Vec::new()
    }

    pub fn handle_close_import_dialog(&mut self, id: u64) -> (cmds: Vec<Command>)
        ensures
            import_dialog_closed(*old(self), id, *final(self), cmds@),
    {
        let matches = match &self.state {
            AppState::Available { dialog: DialogState::Import(d), .. } => d.id == id,
            _ => false,
        };
        if matches {
            self.set_dialog(DialogState::Default);
        }
        Vec::new()
    }

    pub fn handle_import_file_path_changed(&mut self, path: String) -> (cmds: Vec<Command>)
        ensures
            import_path_changed(*old(self), path, *final(self), cmds@),
    {
        let s = self.take_state();
        self.state = match s {
            AppState::Available { profiles, dialog: DialogState::Import(d) } => AppState::Available {
                profiles,
                dialog: DialogState::Import(
                    ImportDialog { id: d.id, file_path: path, custom_name: d.custom_name },
                ),
            },
            other => other,
        };
        Vec::new()
    }

    pub fn handle_import_custom_name_changed(&mut self, name: String) -> (cmds: Vec<Command>)
        ensures
            import_name_changed(*old(self), name, *final(self), cmds@),
    {
        let s = self.take_state();
        self.state = match s {
            AppState::Available { profiles, dialog: DialogState::Import(d) } => AppState::Available {
                profiles,
                dialog: DialogState::Import(
                    ImportDialog { id: d.id, file_path: d.file_path, custom_name: name },
                ),
            },
            other => other,
        };
        Vec::new()
    }

    pub fn handle_submit_import(&mut self) -> (cmds: Vec<Command>)
        ensures
            import_submitted(*old(self), *final(self), cmds@),
    {
        let (file_path, custom_name) = match &self.state {
            AppState::Available { dialog: DialogState::Import(d), .. } => {
                if is_blank_str(d.file_path.as_str()) {
                    return Vec::new();
                }
                let name = if is_blank_str(d.custom_name.as_str()) {
                    None
                } else {
                    Some(trimmed(d.custom_name.as_str()))
                };
                (d.file_path.clone(), name)
            },
            _ => {
                return Vec::new();
            },
        };
        self.set_dialog(DialogState::Default);
        vec![Command::ImportConfig { file_path, name: custom_name }]
    }

    pub fn handle_tunnel_created(&mut self, profile_name: String, result: Result<String, String>) -> (cmds: Vec<Command>)
        ensures
            tunnel_created(*old(self), profile_name, result, *final(self), cmds@),
    {
        match result {
            Ok(session_path) => {
                self.set_dialog(
                    DialogState::WaitingForCredentialRequirements {
                        profile_name: profile_name.clone(),
                        session_path: session_path.clone(),
                    },
                );
                vec![
                    Command::CheckRequirementsAfter {
                        profile_name,
                        session_path,
                        delay_ms: REQUIREMENTS_POLL_DELAY_MS,
                    },
                ]
            },
            Err(_) => Vec::new(),
        }
    }

    pub fn handle_credential_requirements_fetched(
        &mut self,
        profile_name: String,
        session_path: String,
        result: Result<Vec<CredentialInput>, String>,
        new_dialog: u64,
    ) -> (cmds: Vec<Command>)
        ensures
            requirements_fetched(
                *old(self),
                profile_name,
                session_path,
                result,
                new_dialog,
                *final(self),
                cmds@,
            ),
    {
        match result {
            Ok(inputs) => {
                self.set_dialog(
                    DialogState::DynamicConnect(
                        DynamicConnectDialog::new(new_dialog, profile_name, session_path, inputs),
                    ),
                );
            },
            Err(_) => {
                self.set_dialog(DialogState::Default);
            },
        }
        Vec::new()
    }

    pub fn handle_dynamic_input_changed(&mut self, id: u32, value: String) -> (cmds: Vec<Command>)
        ensures
            input_changed(*old(self), id, value, *final(self), cmds@),
    {
        let s = self.take_state();
        self.state = match s {
            AppState::Available { profiles, dialog: DialogState::DynamicConnect(d) } => {
                let mut d = d;
                d.input_values.insert(id, value);
                AppState::Available { profiles, dialog: DialogState::DynamicConnect(d) }
            },
            other => other,
        };
        Vec::new()
    }

    pub fn handle_submit_dynamic_credentials(&mut self) -> (cmds: Vec<Command>)
        requires
            old(self).wf(),
        ensures
            credentials_submitted(*old(self), *final(self), cmds@),
    {
        let (session_path, credentials) = match &self.state {
            AppState::Available { dialog: DialogState::DynamicConnect(d), .. } => {
                if !d.is_valid() {
                    return Vec::new();
                }
                (d.session_path.clone(), d.build_credentials())
            },
            _ => {
                return Vec::new();
            },
        };
        self.set_dialog(DialogState::Default);
        vec![Command::ProvideCredentialsAndConnect { session_path, credentials }]
    }

    pub fn handle_cancel_dynamic_connect(&mut self, session_path: String) -> (cmds: Vec<Command>)
        ensures
            only_state(*old(self), *final(self), with_dialog(old(self).state, DialogState::Default)),
            cmds@ == seq![Command::CancelSession(session_path)],
    {
        self.set_dialog(DialogState::Default);
        vec![Command::CancelSession(session_path)]
    }

    /// Applies `message`: changes the state and says what to do next.
    pub fn update(&mut self, message: Message) -> (cmds: Vec<Command>)
        requires
            old(self).wf(),
            message.wf(),
        ensures
            final(self).wf(),
            transition(*old(self), message, *final(self), cmds@),
    {
        match message {
            Message::TogglePopup { new_popup } => self.handle_toggle_popup(new_popup),
            Message::PopupClosed(id) => self.handle_popup_closed(id),
            Message::ClientInitialized(available) => if available {
                vec![Command::FetchProfiles]
            } else {
                Vec::new()
            },
            Message::RefreshProfiles => vec![Command::FetchProfiles],
            Message::ProfilesLoaded(result) => self.handle_profiles_loaded(result),
            Message::DeleteProfile(name) => self.handle_delete_profile(name),
            Message::ProfileDeleted(name, result) => self.handle_profile_deleted(name, result),
            Message::DisconnectSession(name) => self.handle_disconnect_session(name),
            Message::SessionDisconnected(_, result) => if result.is_ok() {
                vec![Command::FetchProfiles]
            } else {
                Vec::new()
            },
            Message::OpenImportDialog { new_dialog } => self.handle_open_import_dialog(new_dialog),
            Message::CloseImportDialog(id) => self.handle_close_import_dialog(id),
            Message::ImportFilePathChanged(path) => self.handle_import_file_path_changed(path),
            Message::ImportCustomNameChanged(name) => self.handle_import_custom_name_changed(name),
            Message::SubmitImport => self.handle_submit_import(),
            Message::ConfigImported(result) => if result.is_ok() {
                vec![Command::FetchProfiles]
            } else {
                Vec::new()
            },
            Message::StartTunnelCreation(name) => vec![Command::CreateTunnel(name)],
            Message::TunnelCreated(name, result) => self.handle_tunnel_created(name, result),
            Message::CheckCredentialRequirements(profile_name, session_path) => vec![
                Command::QueryRequiredInputs { profile_name, session_path },
            ],
            Message::CredentialRequirementsFetched {
                profile_name,
                session_path,
                result,
                new_dialog,
            } => self.handle_credential_requirements_fetched(
                profile_name,
                session_path,
                result,
                new_dialog,
            ),
            Message::DynamicInputChanged(id, value) => self.handle_dynamic_input_changed(id, value),
            Message::SubmitDynamicCredentials => self.handle_submit_dynamic_credentials(),
            Message::DynamicCredentialsProvided(result) => if result.is_ok() {
                vec![Command::FetchProfiles]
            } else {
                Vec::new()
            },
            Message::CancelDynamicConnect(session_path) => self.handle_cancel_dynamic_connect(
                session_path,
            ),
            Message::SessionCancelled(_) => vec![Command::FetchProfiles],
            Message::AutoRefresh => vec![Command::FetchProfiles],
        }
    }
}

/// Whether some profile is connected.
pub fn any_profile_connected(profiles: &Vec<Profile>) -> (b: bool)
    ensures
        b == any_connected(profiles@),
{
    let mut i: usize = 0;
    while i < profiles.len()
        invariant
            i <= profiles.len(),
            forall|j: int| 0 <= j < i ==> (#[trigger] profiles@[j]).status != ConnectionStatus::Connected,
        decreases profiles.len() - i,
    {
        if profiles[i].status == ConnectionStatus::Connected {
            assert(profiles@[i as int].status == ConnectionStatus::Connected);
            return true;
        }
        i = i + 1;
    }
    false
}

/// `profiles` without those called `name`, in order.
fn retain_others(profiles: Vec<Profile>, name: &str) -> (r: Vec<Profile>)
    ensures
        r@ == without_named(profiles@, name@),
{
    let ghost ps = profiles@;
    let ghost pred = |p: Profile| p.name@ != name@;
    let mut out: Vec<Profile> = Vec::new();
    for p in it: profiles
        invariant
            ps == it.seq(),
            pred == (|p: Profile| p.name@ != name@),
            out@ == ps.take(it.index() as int).filter(pred),
    {
        let ghost k = it.index();
        proof {
            reveal(Seq::filter);
            assert(ps.take(k + 1).drop_last() =~= ps.take(k as int));
            assert(ps.take(k + 1).last() == p);
        }
        let keep = !crate::text::str_eq(p.name.as_str(), name);
        if keep {
            out.push(p);
        }
        proof {
            reveal(Seq::filter);
            assert(out@ =~= ps.take(k + 1).filter(pred));
        }
    }
    assert(ps.take(ps.len() as int) =~= ps);
    out
}

// ---------------------------------------------------------------------------
// Laws
// ---------------------------------------------------------------------------

/// Clicking the panel icon twice opens the popup and then closes that same
/// popup, leaving the content as it was.
pub proof fn law_toggle_twice_closes_popup(
    s0: OpenVpn3Status,
    s1: OpenVpn3Status,
    s2: OpenVpn3Status,
    first: u64,
    second: u64,
    c1: Seq<Command>,
    c2: Seq<Command>,
)
    requires
        s0.popup is None,
        transition(s0, Message::TogglePopup { new_popup: first }, s1, c1),
        transition(s1, Message::TogglePopup { new_popup: second }, s2, c2),
    ensures
        s1.popup == Some(first),
        c1.len() == 2,
        c1[0] == Command::OpenPopup(first),
        s2.popup is None,
        s2.state == s0.state,
        c2 =~= seq![Command::DestroyPopup(first)],
{
}

/// Opening the import dialog and closing it again restores the applet.
pub proof fn law_import_dialog_round_trip(
    s0: OpenVpn3Status,
    s1: OpenVpn3Status,
    s2: OpenVpn3Status,
    id: u64,
    c1: Seq<Command>,
    c2: Seq<Command>,
)
    requires
        dialog_closed(s0.state),
        transition(s0, Message::OpenImportDialog { new_dialog: id }, s1, c1),
        transition(s1, Message::CloseImportDialog(id), s2, c2),
    ensures
        s2 == s0,
        c1.len() == 0,
        c2.len() == 0,
{
}

/// While a dialog is open, no other dialog opens and no profile is deleted
/// or disconnected.
pub proof fn law_open_dialog_blocks_actions(
    s0: OpenVpn3Status,
    s1: OpenVpn3Status,
    m: Message,
    c: Seq<Command>,
)
    requires
        dialog_of(s0.state) matches Some(d) && !(d is Default),
        m is OpenImportDialog || m is DeleteProfile || m is DisconnectSession,
        transition(s0, m, s1, c),
    ensures
        s1 == s0,
        c.len() == 0,
{
}

/// Loading profiles replaces the list and keeps whatever dialog is open; it
/// schedules another refresh exactly when some profile is still connecting.
pub proof fn law_reload_keeps_dialog(
    s0: OpenVpn3Status,
    s1: OpenVpn3Status,
    profiles: Vec<Profile>,
    c: Seq<Command>,
)
    requires
        transition(s0, Message::ProfilesLoaded(Ok(profiles)), s1, c),
    ensures
        s1.popup == s0.popup,
        s1.state matches AppState::Available { profiles: ps, dialog } && ps == profiles && match s0.state {
            AppState::Available { dialog: d0, .. } => dialog == d0,
            AppState::Unavailable => dialog is Default,
        },
        c.len() > 0 <==> any_connecting(profiles@),
        c.len() > 0 ==> c =~= seq![Command::RefreshAfter { secs: AUTO_REFRESH_INTERVAL_SECS }],
{
}

/// After a profile is deleted, no profile of that name is listed and every
/// other profile still is.
pub proof fn law_deleted_profile_gone(
    s0: OpenVpn3Status,
    s1: OpenVpn3Status,
    name: String,
    c: Seq<Command>,
)
    requires
        s0.state is Available,
        transition(s0, Message::ProfileDeleted(name, Ok(())), s1, c),
    ensures
        s1.state matches AppState::Available { profiles: after, .. } && s0.state matches AppState::Available { profiles: before, .. } && {
            &&& forall|i: int| 0 <= i < after@.len() ==> (#[trigger] after@[i]).name@ != name@
            &&& forall|p: Profile| #[trigger] before@.contains(p) && p.name@ != name@ ==> after@.contains(p)
        },
{
    if let (AppState::Available { profiles: after, .. }, AppState::Available { profiles: before, .. }) = (s1.state, s0.state) {
        let pred = |p: Profile| p.name@ != name@;
        broadcast use vstd::seq_lib::group_filter_ensures;
        assert(after@ == before@.filter(pred));
        assert forall|i: int| 0 <= i < after@.len() implies (#[trigger] after@[i]).name@ != name@ by {
            assert(pred(after@[i]));
        }
        assert forall|p: Profile| #[trigger] before@.contains(p) && p.name@ != name@ implies after@.contains(p) by {
            let i = choose|i: int| 0 <= i < before@.len() && before@[i] == p;
            assert(pred(before@[i]));
            before@.lemma_filter_contains(pred, i);
        }
    }
}

/// A value typed into the credential dialog is the value handed to the
/// session for that field when the dialog is submitted.
pub proof fn law_typed_value_is_submitted(
    s0: OpenVpn3Status,
    s1: OpenVpn3Status,
    s2: OpenVpn3Status,
    key: u32,
    value: String,
    c1: Seq<Command>,
    c2: Seq<Command>,
)
    requires
        dialog_of(s0.state) matches Some(DialogState::DynamicConnect(_)),
        transition(s0, Message::DynamicInputChanged(key, value), s1, c1),
        transition(s1, Message::SubmitDynamicCredentials, s2, c2),
        c2.len() > 0,
    ensures
        c1.len() == 0,
        dialog_closed(s2.state),
        c2[0] matches Command::ProvideCredentialsAndConnect { credentials, .. } && credentials.values@.contains_key(key) && credentials.values@[key] == value,
{
}

/// Cancelling the credential flow closes the dialog and the session it opened.
pub proof fn law_cancel_closes_dialog(
    s0: OpenVpn3Status,
    s1: OpenVpn3Status,
    session_path: String,
    c: Seq<Command>,
)
    requires
        s0.state is Available,
        transition(s0, Message::CancelDynamicConnect(session_path), s1, c),
    ensures
        dialog_closed(s1.state),
        c =~= seq![Command::CancelSession(session_path)],
{
}

/// After profiles load, the panel icon is filled exactly when one of them is
/// connected.
pub proof fn law_icon_follows_loaded_profiles(
    s0: OpenVpn3Status,
    s1: OpenVpn3Status,
    profiles: Vec<Profile>,
    c: Seq<Command>,
)
    requires
        transition(s0, Message::ProfilesLoaded(Ok(profiles)), s1, c),
    ensures
        shows_filled_icon(s1) == any_connected(profiles@),
{
}

/// Every action that succeeds, and every cancelled session, is followed by
/// reloading the profiles.
pub proof fn law_success_reloads_profiles(s0: OpenVpn3Status, s1: OpenVpn3Status, m: Message, c: Seq<Command>)
    requires
        m matches Message::SessionDisconnected(_, Ok(_)) || m matches Message::ConfigImported(Ok(_))
            || m matches Message::DynamicCredentialsProvided(Ok(_)) || m is SessionCancelled,
        transition(s0, m, s1, c),
    ensures
        s1 == s0,
        c =~= seq![Command::FetchProfiles],
{
}


/// Checking what a new session needs queries that session, on behalf of that
/// profile, and does nothing else: the query goes to the session path of the
/// message and names the profile of the message.
pub proof fn law_credential_query_targets_session(
    s0: OpenVpn3Status,
    s1: OpenVpn3Status,
    profile_name: String,
    session_path: String,
    c: Seq<Command>,
)
    requires
        transition(s0, Message::CheckCredentialRequirements(profile_name, session_path), s1, c),
    ensures
        s1 == s0,
        c.len() == 1,
        c[0] matches Command::QueryRequiredInputs { profile_name: p, session_path: sp } && p
            == profile_name && sp == session_path,
{
}

/// A credential dialog in which any one required input has no value, or only
/// a blank one, is not complete.
pub proof fn law_missing_value_makes_dialog_incomplete(d: DynamicConnectDialog, i: int)
    requires
        0 <= i < d.required_inputs@.len(),
        d.required_inputs@[i]@.key_fits(),
        !d.input_values@.contains_key(d.required_inputs@[i]@.key() as u32) || is_blank(
            d.input_values@[d.required_inputs@[i]@.key() as u32]@,
        ),
    ensures
        !d.complete(),
{
    assert(d.required_inputs@[i] == d.required_inputs@[i]);
}

/// A credential dialog in which every required input has a value that is not
/// blank is complete.
pub proof fn law_all_values_make_dialog_complete(d: DynamicConnectDialog)
    requires
        forall|i: int|
            0 <= i < d.required_inputs@.len() ==> {
                let k = (#[trigger] d.required_inputs@[i])@.key();
                &&& k <= u32::MAX
                &&& d.input_values@.contains_key(k as u32)
                &&& !is_blank(d.input_values@[k as u32]@)
            },
    ensures
        d.complete(),
{
}

/// Submitting a credential dialog in which some required input has no value,
/// or a blank one, changes nothing and hands nothing to the session.
pub proof fn law_incomplete_dialog_submits_nothing(
    s0: OpenVpn3Status,
    s1: OpenVpn3Status,
    d: DynamicConnectDialog,
    i: int,
    c: Seq<Command>,
)
    requires
        dialog_of(s0.state) == Some(DialogState::DynamicConnect(d)),
        0 <= i < d.required_inputs@.len(),
        d.required_inputs@[i]@.key_fits(),
        !d.input_values@.contains_key(d.required_inputs@[i]@.key() as u32) || is_blank(
            d.input_values@[d.required_inputs@[i]@.key() as u32]@,
        ),
        transition(s0, Message::SubmitDynamicCredentials, s1, c),
    ensures
        s1 == s0,
        c.len() == 0,
{
    law_missing_value_makes_dialog_incomplete(d, i);
}

/// Submitting a credential dialog in which every required input has a value
/// that is not blank closes it and hands all typed values to its session.
pub proof fn law_complete_dialog_is_submitted(
    s0: OpenVpn3Status,
    s1: OpenVpn3Status,
    d: DynamicConnectDialog,
    c: Seq<Command>,
)
    requires
        dialog_of(s0.state) == Some(DialogState::DynamicConnect(d)),
        forall|i: int|
            0 <= i < d.required_inputs@.len() ==> {
                let k = (#[trigger] d.required_inputs@[i])@.key();
                &&& k <= u32::MAX
                &&& d.input_values@.contains_key(k as u32)
                &&& !is_blank(d.input_values@[k as u32]@)
            },
        transition(s0, Message::SubmitDynamicCredentials, s1, c),
    ensures
        dialog_closed(s1.state),
        c.len() == 1,
        c[0] matches Command::ProvideCredentialsAndConnect { session_path, credentials }
            && session_path == d.session_path && credentials.values@ == d.input_values@,
{
    law_all_values_make_dialog_complete(d);
}

} // verus!
