//! The SSH host add/edit form's decisions: validating the typed fields into a host
//! record, the attributive add-mode guard, the `save to:` preselection, and the
//! keyring lifecycle of a save (which secret to keep, mint or clear).

use vstd::prelude::*;
use crate::model::{AuthMethod, DefaultScope, Host, Scope};
use crate::numeral::parse_unsigned;
use crate::secrets::{
    secret_id, mint_secret_id_as, stage_plan, staged_as, opt_view, copy_opt,
};
pub use crate::secrets::{SecretPlan, StagedSecret, Staging, KeyringPut, after_put};
use crate::text::{trim_seq, trim_string};

verus! {

/// Which auth method the segmented selector has chosen.
#[derive(Clone, Copy, Debug, PartialEq, Eq, Structural)]
pub enum AuthChoice {
    /// Use the running SSH agent.
    Agent,
    /// Public-key auth (key path + optional passphrase).
    Key,
    /// Password auth.
    Password,
}

/// Which layer the `save to:` selector points at.
#[derive(Clone, Copy, Debug, PartialEq, Eq, Structural)]
pub enum SaveTarget {
    /// The active workspace's committed config.
    Workspace,
    /// The machine-global store.
    Global,
}

// ---- the auth segments -----------------------------------------------------------------

/// How many auth segments the selector shows.
pub const AUTH_SEGMENT_COUNT: usize = 3;

/// The auth segment at `index`, in render order (`agent`, `key`, `password`), with
/// its label.
pub open spec fn segment_spec(index: int) -> Option<(Seq<char>, AuthChoice)> {
    if index == 0 {
        Some(("agent"@, AuthChoice::Agent))
    } else if index == 1 {
        Some(("key"@, AuthChoice::Key))
    } else if index == 2 {
        Some(("password"@, AuthChoice::Password))
    } else {
        None
    }
}

/// The label and choice of auth segment `index`; `None` past the last one. One list:
/// the labels the selector shows and the choices they map to cannot drift apart.
pub fn auth_segment(index: usize) -> (r: Option<(&'static str, AuthChoice)>)
    ensures
        match segment_spec(index as int) {
            Some((label, choice)) => r matches Some((l, c)) && l@ == label && c == choice,
            None => r is None,
        },
{
    if index == 0 {
        Some(("agent", AuthChoice::Agent))
    } else if index == 1 {
        Some(("key", AuthChoice::Key))
    } else if index == 2 {
        Some(("password", AuthChoice::Password))
    } else {
        None
    }
}

/// Which segment is lit for `choice`.
pub fn auth_index(choice: AuthChoice) -> (r: usize)
    ensures
        r < AUTH_SEGMENT_COUNT,
        segment_spec(r as int) matches Some((_, c)) && c == choice,
{
    match choice {
        AuthChoice::Agent => 0,
        AuthChoice::Key => 1,
        AuthChoice::Password => 2,
    }
}

/// Which choice segment `index` means. An out-of-range index falls back to `Agent` —
/// the method that stores no secret, so a drift can never silently arm a password
/// field.
pub fn auth_at(index: usize) -> (r: AuthChoice)
    ensures
        match segment_spec(index as int) {
            Some((_, c)) => r == c,
            None => r == AuthChoice::Agent,
        },
{
    match auth_segment(index) {
        Some((_, c)) => c,
        None => AuthChoice::Agent,
    }
}

/// Why the `workspace` option is disabled, if it is: `None` while a workspace is
/// focused.
pub fn workspace_option_note(ws_active: bool) -> (r: Option<&'static str>)
    ensures
        ws_active ==> r is None,
        !ws_active ==> (r matches Some(s) && s@ == "— no workspace focused"@),
{
    if ws_active {
        None
    } else {
        Some("— no workspace focused")
    }
}

// ---- validation ------------------------------------------------------------------------

/// Raw field values gathered from the inputs, before validation.
pub struct FormInput {
    pub alias: String,
    pub user: String,
    pub host: String,
    pub port: String,
    pub auth: AuthChoice,
    pub key_path: String,
}

/// The port a typed value means: the trimmed text read as a `u16`, and at least 1.
pub open spec fn port_value(s: Seq<char>) -> Option<int> {
    match parse_unsigned(trim_seq(s), 65535) {
        Some(p) => if p >= 1 {
            Some(p)
        } else {
            None
        },
        None => None,
    }
}

/// The error `validate` reports for `input`, if any: the first of — empty alias,
/// empty user, empty host, a port outside 1–65535, an empty key path under key auth.
pub open spec fn validate_error(input: FormInput) -> Option<Seq<char>> {
    if trim_seq(input.alias@).len() == 0 {
        Some("alias must not be empty"@)
    } else if trim_seq(input.user@).len() == 0 {
        Some("user must not be empty"@)
    } else if trim_seq(input.host@).len() == 0 {
        Some("host must not be empty"@)
    } else if port_value(input.port@) is None {
        Some("port must be a number in 1–65535"@)
    } else if input.auth == AuthChoice::Key && trim_seq(input.key_path@).len() == 0 {
        Some("key path must not be empty for key auth"@)
    } else {
        None
    }
}

/// The trimmed text of `s` read as a port in 1–65535.
fn parse_port(s: &str) -> (r: Option<u16>)
    ensures
        match r {
            Some(p) => port_value(s@) == Some(p as int),
            None => port_value(s@) is None,
        },
{
    let t = trim_string(s);
    match crate::numeral::parse_u16(t.as_str()) {
        Some(p) => if p >= 1 {
            Some(p)
        } else {
            None
        },
        None => None,
    }
}

/// Validate raw field values into a writable [`Host`] (with no `secret_ref` — the
/// secret lifecycle assigns it later). Rules: alias/user/host non-empty; port parses
/// into 1–65535; key path non-empty when auth is `Key`. Every kept value is trimmed.
pub fn validate(input: &FormInput) -> (r: Result<Host, String>)
    ensures
        match validate_error(*input) {
            Some(msg) => r matches Err(e) && e@ == msg,
            None => r matches Ok(h) && {
                &&& h.alias@ == trim_seq(input.alias@)
                &&& h.user@ == trim_seq(input.user@)
                &&& h.host@ == trim_seq(input.host@)
                &&& port_value(input.port@) == Some(h.port as int)
                &&& h.secret_ref is None
                &&& h.folder is None
                &&& match input.auth {
                    AuthChoice::Agent => h.auth == AuthMethod::Agent,
                    AuthChoice::Password => h.auth == AuthMethod::Password,
                    AuthChoice::Key => h.auth matches AuthMethod::Key { path } && path@
                        == trim_seq(input.key_path@),
                }
            },
        },
{
    let alias = trim_string(input.alias.as_str());
    if alias.as_str().is_empty() {
        return Err(String::from_str("alias must not be empty"));
    }
    let user = trim_string(input.user.as_str());
    if user.as_str().is_empty() {
        return Err(String::from_str("user must not be empty"));
    }
    let host = trim_string(input.host.as_str());
    if host.as_str().is_empty() {
        return Err(String::from_str("host must not be empty"));
    }
    let port = match parse_port(input.port.as_str()) {
        Some(p) => p,
        None => {
            return Err(String::from_str("port must be a number in 1–65535"));
        },
    };
    let auth = match input.auth {
        AuthChoice::Agent => AuthMethod::Agent,
        AuthChoice::Password => AuthMethod::Password,
        AuthChoice::Key => {
            let path = trim_string(input.key_path.as_str());
            if path.as_str().is_empty() {
                return Err(String::from_str("key path must not be empty for key auth"));
            }
            AuthMethod::Key { path }
        },
    };
    Ok(Host { alias, user, host, port, secret_ref: None, auth, folder: None })
}

// ---- the add-mode guard and the save-to preselection -----------------------------------

/// The attributive add-mode guard: an *add* into a layer that already holds the alias
/// is refused (nothing is ever silently clobbered); only an explicit edit upserts.
/// `target_label` names the offending layer in the message.
pub fn add_guard(is_edit: bool, target_holds_alias: bool, target_label: &str) -> (r: Result<
    (),
    String,
>)
    ensures
        (!is_edit && target_holds_alias) ==> (r matches Err(e) && e@ == "alias exists in "@
            + target_label@ + " — edit it instead"@),
        !(!is_edit && target_holds_alias) ==> r is Ok,
{
    if !is_edit && target_holds_alias {
        let mut e = String::from_str("alias exists in ");
        e.append(target_label);
        e.append(" — edit it instead");
        Err(e)
    } else {
        Ok(())
    }
}

/// Which `save to:` option an add form preselects: `Ask` preselects nothing; a
/// `Workspace` default preselects nothing when no workspace is active.
pub open spec fn preselect_spec(default_scope: DefaultScope, workspace_active: bool) -> Option<
    SaveTarget,
> {
    match default_scope {
        DefaultScope::Ask => None,
        DefaultScope::Global => Some(SaveTarget::Global),
        DefaultScope::Workspace => if workspace_active {
            Some(SaveTarget::Workspace)
        } else {
            None
        },
    }
}

/// Which `save to:` option an add form preselects, as [`preselect_spec`] says.
pub fn preselect(default_scope: DefaultScope, workspace_active: bool) -> (r: Option<SaveTarget>)
    ensures
        r == preselect_spec(default_scope, workspace_active),
{
    match default_scope {
        DefaultScope::Ask => None,
        DefaultScope::Global => Some(SaveTarget::Global),
        DefaultScope::Workspace => if workspace_active {
            Some(SaveTarget::Workspace)
        } else {
            None
        },
    }
}

/// The `save to:` option an edit form shows: the layer the record came from.
pub fn origin_target(origin: &Scope) -> (r: SaveTarget)
    ensures
        r == match origin {
            Scope::Global => SaveTarget::Global,
            Scope::Workspace(_) => SaveTarget::Workspace,
        },
{
    match origin {
        Scope::Global => SaveTarget::Global,
        Scope::Workspace(_) => SaveTarget::Workspace,
    }
}

// ---- the keyring lifecycle -------------------------------------------------------------

/// Which secret an [`AuthMethod`] stores in the keyring. Distinguishing the slots
/// keeps an old *password* from silently becoming a key *passphrase*.
#[derive(Clone, Copy, Debug, PartialEq, Eq, Structural)]
pub enum SecretSlot {
    /// No stored secret (agent auth).
    Nothing,
    /// The login password.
    Password,
    /// The private key's passphrase.
    KeyPassphrase,
}

/// The slot `auth` keeps its secret in.
pub open spec fn slot_of(auth: AuthMethod) -> SecretSlot {
    match auth {
        AuthMethod::Agent => SecretSlot::Nothing,
        AuthMethod::Password => SecretSlot::Password,
        AuthMethod::Key { .. } => SecretSlot::KeyPassphrase,
    }
}

/// The slot `auth` keeps its secret in.
pub fn secret_slot(auth: &AuthMethod) -> (r: SecretSlot)
    ensures
        r == slot_of(*auth),
{
    match auth {
        AuthMethod::Agent => SecretSlot::Nothing,
        AuthMethod::Password => SecretSlot::Password,
        AuthMethod::Key { .. } => SecretSlot::KeyPassphrase,
    }
}

/// What a save does to the keyring: a record whose auth stores no secret clears the
/// old one; a typed secret is minted afresh; an untouched field keeps the old secret
/// only when the old record kept it in the same slot, and clears it otherwise.
pub open spec fn plan_spec(old: Option<Host>, new_auth: AuthMethod, secret_entered: bool) -> SecretPlan {
    let old_ref = match old {
        Some(h) => h.secret_ref,
        None => None,
    };
    let old_slot = match old {
        Some(h) => slot_of(h.auth),
        None => SecretSlot::Nothing,
    };
    if slot_of(new_auth) == SecretSlot::Nothing {
        SecretPlan::Clear { delete_old: old_ref }
    } else if secret_entered {
        SecretPlan::Mint { delete_old: old_ref }
    } else {
        match old_ref {
            Some(id) => if old_slot == slot_of(new_auth) {
                SecretPlan::Keep(id)
            } else {
                SecretPlan::Clear { delete_old: Some(id) }
            },
            None => SecretPlan::Clear { delete_old: None },
        }
    }
}

/// The old record's `secret_ref`, copied.
fn old_secret_ref(old: Option<&Host>) -> (r: Option<String>)
    ensures
        r == match old {
            Some(h) => h.secret_ref,
            None => None,
        },
{
    match old {
        Some(h) => match &h.secret_ref {
            Some(id) => Some(id.clone()),
            None => None,
        },
        None => None,
    }
}

/// Decide what a save does to the keyring. `old` is the pre-edit record (`None` when
/// adding); `secret_entered` is whether the user typed into the relevant masked field.
pub fn plan_secret(old: Option<&Host>, new_auth: &AuthMethod, secret_entered: bool) -> (r: SecretPlan)
    ensures
        r == plan_spec(
            match old {
                Some(h) => Some(*h),
                None => None,
            },
            *new_auth,
            secret_entered,
        ),
{
    let old_ref = old_secret_ref(old);
    let old_slot = match old {
        Some(h) => secret_slot(&h.auth),
        None => SecretSlot::Nothing,
    };
    let new_slot = secret_slot(new_auth);
    if new_slot == SecretSlot::Nothing {
        return SecretPlan::Clear { delete_old: old_ref };
    }
    if secret_entered {
        return SecretPlan::Mint { delete_old: old_ref };
    }
    match old_ref {
        Some(id) => if old_slot == new_slot {
            SecretPlan::Keep(id)
        } else {
            SecretPlan::Clear { delete_old: Some(id) }
        },
        None => SecretPlan::Clear { delete_old: None },
    }
}

/// Mint an opaque keyring id `ssh-<alias>-<unix_nanos>` from the clock. Nanosecond
/// timestamps keep same-alias records in different layers from colliding.
pub fn mint_secret_id(alias: &str) -> (id: String)
    ensures
        exists|n: nat| id@ == secret_id("ssh"@, alias@, n),
{
    mint_secret_id_as("ssh", alias)
}

/// Stage a [`SecretPlan`]: for `Mint` (which requires a typed secret) a fresh
/// `ssh-<alias>-<nanos>` id and the keyring write that stores the secret under it;
/// `Keep` and `Clear` pass through and ask nothing of the keyring. Old-id deletion is
/// deferred to after the record's write via `delete_after_write`; the keyring's answer
/// to the write goes to [`after_put`].
pub fn stage_secret(plan: &SecretPlan, alias: &str, secret: Option<&str>) -> (r: Result<Staging, String>)
    ensures
        staged_as(*plan, "ssh"@, alias@, opt_view(secret), r),
{
    stage_plan(plan, "ssh", alias, secret)
}

// ---- the form's own state ------------------------------------------------------------

/// Add a new host, or edit an existing one in place.
#[derive(Debug, PartialEq, Eq)]
pub enum FormMode {
    /// Fresh record; the add-mode guard applies.
    Add,
    /// Upsert of `original` into its `origin` layer; alias locked.
    Edit { original: Host, origin: Scope },
}

/// A copy of a scope.
pub fn copy_scope(s: &Scope) -> (r: Scope)
    ensures
        r == *s,
{
    match s {
        Scope::Global => Scope::Global,
        Scope::Workspace(id) => Scope::Workspace(id.clone()),
    }
}

/// The concrete layer a save would write into. Edits always target their origin;
/// adds follow the `save to:` selection (`None` until the user chooses, or when it
/// names the workspace and none is focused).
pub fn target_scope(mode: &FormMode, save_to: Option<SaveTarget>, workspace: Option<&Scope>) -> (r:
    Option<Scope>)
    ensures
        r == match *mode {
            FormMode::Edit { origin, .. } => Some(origin),
            FormMode::Add => match save_to {
                None => None,
                Some(SaveTarget::Global) => Some(Scope::Global),
                Some(SaveTarget::Workspace) => match workspace {
                    Some(w) => Some(*w),
                    None => None,
                },
            },
        },
{
    match mode {
        FormMode::Edit { origin, .. } => Some(copy_scope(origin)),
        FormMode::Add => match save_to {
            None => None,
            Some(SaveTarget::Global) => Some(Scope::Global),
            Some(SaveTarget::Workspace) => match workspace {
                Some(w) => Some(copy_scope(w)),
                None => None,
            },
        },
    }
}

/// The secret text the current auth selection carries, if the user typed one: the
/// password under password auth, the passphrase under key auth, nothing under agent.
pub fn entered_secret(auth: AuthChoice, password: &str, passphrase: &str) -> (r: Option<String>)
    ensures
        match auth {
            AuthChoice::Agent => r is None,
            AuthChoice::Password => if password@.len() == 0 {
                r is None
            } else {
                r matches Some(t) && t@ == password@
            },
            AuthChoice::Key => if passphrase@.len() == 0 {
                r is None
            } else {
                r matches Some(t) && t@ == passphrase@
            },
        },
{
    let field = match auth {
        AuthChoice::Agent => {
            return None;
        },
        AuthChoice::Password => password,
        AuthChoice::Key => passphrase,
    };
    if field.is_empty() {
        None
    } else {
        Some(String::from_str(field))
    }
}

/// Which masked fields switching the auth segment from `current` to `choice` clears,
/// as `(password, passphrase)`; `None` when the choice is unchanged. Secret text that
/// no longer applies never lingers: agent clears both, key clears the password,
/// password clears the passphrase.
pub fn auth_switch_clears(current: AuthChoice, choice: AuthChoice) -> (r: Option<(bool, bool)>)
    ensures
        current == choice ==> r is None,
        current != choice ==> r == Some(
            match choice {
                AuthChoice::Agent => (true, true),
                AuthChoice::Key => (true, false),
                AuthChoice::Password => (false, true),
            },
        ),
{
    if current == choice {
        return None;
    }
    Some(
        match choice {
            AuthChoice::Agent => (true, true),
            AuthChoice::Key => (true, false),
            AuthChoice::Password => (false, true),
        },
    )
}

/// The password field's hint: a stored secret is kept when the field is left empty;
/// without an OS keyring a typed password lasts only this session.
pub fn password_hint(has_stored_secret: bool, secrets_degraded: bool) -> (r: &'static str)
    ensures
        has_stored_secret ==> r@ == "leave empty to keep the stored secret"@,
        !has_stored_secret && secrets_degraded ==> r@
            == "no OS keyring — passwords last this session only; you'll be asked at connect"@,
        !has_stored_secret && !secrets_degraded ==> r@ == "password — stored in the OS keyring"@,
{
    if has_stored_secret {
        "leave empty to keep the stored secret"
    } else if secrets_degraded {
        "no OS keyring — passwords last this session only; you'll be asked at connect"
    } else {
        "password — stored in the OS keyring"
    }
}

/// The passphrase field's hint.
pub fn passphrase_hint(has_stored_secret: bool) -> (r: &'static str)
    ensures
        has_stored_secret ==> r@ == "leave empty to keep the stored secret"@,
        !has_stored_secret ==> r@ == "passphrase (optional) — stored in the OS keyring"@,
{
    if has_stored_secret {
        "leave empty to keep the stored secret"
    } else {
        "passphrase (optional) — stored in the OS keyring"
    }
}

/// The auth segment and key path a form opens with: the record's own auth (agent for
/// a fresh form) and its key path, or else `preferred_key` (the key this machine
/// would use), so that switching to key auth costs nothing.
pub fn initial_auth(prefill: Option<&Host>, preferred_key: Option<String>) -> (r: (
    AuthChoice,
    Option<String>,
))
    ensures
        match prefill {
            Some(h) => match h.auth {
                AuthMethod::Agent => r == (AuthChoice::Agent, preferred_key),
                AuthMethod::Password => r == (AuthChoice::Password, preferred_key),
                AuthMethod::Key { path } => r == (AuthChoice::Key, Some(path)),
            },
            None => r == (AuthChoice::Agent, preferred_key),
        },
{
    match prefill {
        Some(h) => match &h.auth {
            AuthMethod::Agent => (AuthChoice::Agent, preferred_key),
            AuthMethod::Password => (AuthChoice::Password, preferred_key),
            AuthMethod::Key { path } => (AuthChoice::Key, Some(path.clone())),
        },
        None => (AuthChoice::Agent, preferred_key),
    }
}

/// The port field's initial text: the record's port, or `22` for a fresh form.
pub fn initial_port(prefill: Option<&Host>) -> (r: String)
    ensures
        match prefill {
            Some(h) => r@ == crate::numeral::decimal(h.port as nat),
            None => r@ == "22"@,
        },
{
    match prefill {
        Some(h) => crate::numeral::decimal_string(h.port as u128),
        None => String::from_str("22"),
    }
}

/// A validated form submission.
#[derive(Debug)]
pub struct Submission {
    /// The validated host, with no `secret_ref` yet.
    pub host: Host,
    /// The layer to write into.
    pub target: Scope,
    /// The original record when editing.
    pub old: Option<Host>,
    /// Secret text entered this session, if any.
    pub secret: Option<String>,
}

/// A copy of a host record.
pub fn copy_host(h: &Host) -> (r: Host)
    ensures
        r == *h,
{
    Host {
        alias: h.alias.clone(),
        user: h.user.clone(),
        host: h.host.clone(),
        port: h.port,
        secret_ref: copy_opt(&h.secret_ref),
        auth: match &h.auth {
            AuthMethod::Agent => AuthMethod::Agent,
            AuthMethod::Password => AuthMethod::Password,
            AuthMethod::Key { path } => AuthMethod::Key { path: path.clone() },
        },
        folder: copy_opt(&h.folder),
    }
}

/// What pressing Save yields for these inputs: the validated host (an edit keeps its
/// original alias, whatever the locked field shows), the target layer, the original
/// record and the typed secret — or the first reason not to submit: a validation
/// error, then a missing save target.
pub open spec fn submission_spec(
    mode: FormMode,
    input: FormInput,
    save_to: Option<SaveTarget>,
    workspace: Option<Scope>,
    password: Seq<char>,
    passphrase: Seq<char>,
    r: Result<Submission, String>,
) -> bool {
    let effective = match mode {
        FormMode::Add => input,
        FormMode::Edit { original, .. } => FormInput { alias: original.alias, ..input },
    };
    let target = match mode {
        FormMode::Edit { origin, .. } => Some(origin),
        FormMode::Add => match save_to {
            None => None,
            Some(SaveTarget::Global) => Some(Scope::Global),
            Some(SaveTarget::Workspace) => workspace,
        },
    };
    match validate_error(effective) {
        Some(msg) => r matches Err(e) && e@ == msg,
        None => match target {
            None => r matches Err(e) && e@ == "choose where to save: workspace or global"@,
            Some(t) => r matches Ok(sub) && sub.target == t && sub.host.alias@ == trim_seq(
                effective.alias@,
            ) && sub.host.user@ == trim_seq(input.user@) && sub.host.host@ == trim_seq(
                input.host@,
            ) && port_value(input.port@) == Some(sub.host.port as int) && sub.host.secret_ref is None
                && (match mode {
                FormMode::Add => sub.old is None,
                FormMode::Edit { original, .. } => sub.old == Some(original),
            }) && (match input.auth {
                AuthChoice::Agent => sub.secret is None,
                AuthChoice::Password => if password.len() == 0 {
                    sub.secret is None
                } else {
                    sub.secret matches Some(t) && t@ == password
                },
                AuthChoice::Key => if passphrase.len() == 0 {
                    sub.secret is None
                } else {
                    sub.secret matches Some(t) && t@ == passphrase
                },
            }),
        },
    }
}

/// What pressing Save submits, as [`submission_spec`] says.
pub fn host_submission(
    mode: &FormMode,
    input: &FormInput,
    save_to: Option<SaveTarget>,
    workspace: Option<&Scope>,
    password: &str,
    passphrase: &str,
) -> (r: Result<Submission, String>)
    ensures
        submission_spec(
            *mode,
            *input,
            save_to,
            match workspace {
                Some(w) => Some(*w),
                None => None,
            },
            password@,
            passphrase@,
            r,
        ),
{
    let effective = match mode {
        FormMode::Add => FormInput {
            alias: input.alias.clone(),
            user: input.user.clone(),
            host: input.host.clone(),
            port: input.port.clone(),
            auth: input.auth,
            key_path: input.key_path.clone(),
        },
        FormMode::Edit { original, .. } => FormInput {
            alias: original.alias.clone(),
            user: input.user.clone(),
            host: input.host.clone(),
            port: input.port.clone(),
            auth: input.auth,
            key_path: input.key_path.clone(),
        },
    };
    let host = match validate(&effective) {
        Ok(h) => h,
        Err(e) => {
            return Err(e);
        },
    };
    let target = match target_scope(mode, save_to, workspace) {
        Some(t) => t,
        None => {
            return Err(String::from_str("choose where to save: workspace or global"));
        },
    };
    let secret = entered_secret(input.auth, password, passphrase);
    let old = match mode {
        FormMode::Add => None,
        FormMode::Edit { original, .. } => Some(copy_host(original)),
    };
    Ok(Submission { host, target, old, secret })
}

// ---- the form -----------------------------------------------------------------------

/// Events the form hands its owner.
#[derive(Debug)]
pub enum HostFormEvent {
    /// Dismiss without saving.
    Cancel,
    /// A locally validated submission; the owner runs the add-mode guard, the secret
    /// lifecycle and the store write.
    Submit(Box<Submission>),
}

/// What an add form can open already holding: what the user typed into quick-connect.
#[derive(Debug)]
pub struct AddPrefill {
    pub alias: String,
    pub user: String,
    pub host: String,
    pub port: u16,
}

/// The field that takes keyboard focus when the form opens.
#[derive(Clone, Copy, Debug, PartialEq, Eq, Structural)]
pub enum HostField {
    Alias,
    User,
}

/// The host add/edit form: its mode, the text of each field, the auth and `save to:`
/// selections, the focused workspace (its scope and label) and the error line.
#[derive(Debug)]
pub struct HostForm {
    pub mode: FormMode,
    pub alias: String,
    pub user: String,
    pub host: String,
    pub port: String,
    pub key_path: String,
    pub passphrase: String,
    pub password: String,
    pub auth: AuthChoice,
    /// The selected save target; `None` while nothing is chosen.
    pub save_to: Option<SaveTarget>,
    pub workspace: Option<(Scope, String)>,
    pub error: Option<String>,
    /// The masked fields' hints.
    pub password_hint: String,
    pub passphrase_hint: String,
}

/// The text a field opens with: the record's value, or empty.
fn opt_text(v: Option<&String>) -> (r: String)
    ensures
        match v {
            Some(t) => r@ == t@,
            None => r@.len() == 0,
        },
{
    match v {
        Some(t) => t.clone(),
        None => String::new(),
    }
}

/// The workspace's scope, when one is focused.
pub open spec fn workspace_scope(w: Option<(Scope, String)>) -> Option<Scope> {
    match w {
        Some((s, _)) => Some(s),
        None => None,
    }
}

/// The fields as the validator reads them.
pub open spec fn form_input(f: HostForm) -> FormInput {
    FormInput {
        alias: f.alias,
        user: f.user,
        host: f.host,
        port: f.port,
        auth: f.auth,
        key_path: f.key_path,
    }
}

/// How a form opens on `prefill` (a record to edit, or the seed of an add): its text
/// fields hold the record, the port `22` when there is none, the auth follows
/// [`initial_auth`], the secret fields are empty and the hints follow
/// [`password_hint`] and [`passphrase_hint`].
pub open spec fn opened_on(
    f: HostForm,
    prefill: Option<Host>,
    secrets_degraded: bool,
    preferred_key: Option<String>,
) -> bool {
    let stored = prefill matches Some(h) && h.secret_ref is Some;
    &&& f.error is None
    &&& f.passphrase@.len() == 0
    &&& f.password@.len() == 0
    &&& match prefill {
        Some(h) => f.alias@ == h.alias@ && f.user@ == h.user@ && f.host@ == h.host@ && f.port@
            == crate::numeral::decimal(h.port as nat),
        None => f.alias@.len() == 0 && f.user@.len() == 0 && f.host@.len() == 0 && f.port@
            == "22"@,
    }
    &&& match prefill {
        Some(Host { auth: AuthMethod::Key { path }, .. }) => f.auth == AuthChoice::Key
            && f.key_path@ == path@,
        _ => f.auth == (match prefill {
            Some(Host { auth: AuthMethod::Password, .. }) => AuthChoice::Password,
            _ => AuthChoice::Agent,
        }) && match preferred_key {
            Some(k) => f.key_path@ == k@,
            None => f.key_path@.len() == 0,
        },
    }
    &&& stored ==> f.password_hint@ == "leave empty to keep the stored secret"@
        && f.passphrase_hint@ == "leave empty to keep the stored secret"@
    &&& !stored && secrets_degraded ==> f.password_hint@
        == "no OS keyring — passwords last this session only; you'll be asked at connect"@
    &&& !stored && !secrets_degraded ==> f.password_hint@
        == "password — stored in the OS keyring"@
    &&& !stored ==> f.passphrase_hint@ == "passphrase (optional) — stored in the OS keyring"@
}

impl HostForm {
    fn new_inner(
        workspace: Option<(Scope, String)>,
        prefill: Option<&Host>,
        secrets_degraded: bool,
        preferred_key: Option<String>,
    ) -> (f: HostForm)
        ensures
            opened_on(
                f,
                match prefill {
                    Some(h) => Some(*h),
                    None => None,
                },
                secrets_degraded,
                preferred_key,
            ),
            f.mode is Add,
            f.save_to is None,
            f.workspace == workspace,
    {
        let stored = match prefill {
            Some(h) => h.secret_ref.is_some(),
            None => false,
        };
        let (auth, key_path) = initial_auth(prefill, preferred_key);
        HostForm {
            mode: FormMode::Add,
            alias: opt_text(
                match prefill {
                    Some(h) => Some(&h.alias),
                    None => None,
                },
            ),
            user: opt_text(
                match prefill {
                    Some(h) => Some(&h.user),
                    None => None,
                },
            ),
            host: opt_text(
                match prefill {
                    Some(h) => Some(&h.host),
                    None => None,
                },
            ),
            port: initial_port(prefill),
            key_path: opt_text(
                match &key_path {
                    Some(k) => Some(k),
                    None => None,
                },
            ),
            passphrase: String::new(),
            password: String::new(),
            auth,
            save_to: None,
            workspace,
            error: None,
            password_hint: String::from_str(password_hint(stored, secrets_degraded)),
            passphrase_hint: String::from_str(passphrase_hint(stored)),
        }
    }

    /// An add form. `prefill` (quick-connect's typed host) seeds the fields as an
    /// agent-auth record with no secret; the `save to:` selection follows
    /// [`preselect`]; `prefer_key` — this machine has a key and no agent — opens on
    /// key auth.
    pub fn new_add(
        workspace: Option<(Scope, String)>,
        default_scope: DefaultScope,
        secrets_degraded: bool,
        prefill: Option<AddPrefill>,
        preferred_key: Option<String>,
        prefer_key: bool,
    ) -> (f: HostForm)
        ensures
            f.mode is Add,
            f.workspace == workspace,
            f.save_to == preselect_spec(default_scope, workspace is Some),
            ({
                let seed = match prefill {
                    Some(p) => Some(
                        Host {
                            alias: p.alias,
                            user: p.user,
                            host: p.host,
                            port: p.port,
                            secret_ref: None,
                            auth: AuthMethod::Agent,
                            folder: None,
                        },
                    ),
                    None => None,
                };
                opened_on(
                    HostForm { auth: if prefer_key { AuthChoice::Agent } else { f.auth }, ..f },
                    seed,
                    secrets_degraded,
                    preferred_key,
                )
            }),
            prefer_key ==> f.auth == AuthChoice::Key,
    {
        let active = workspace.is_some();
        let seed = match prefill {
            Some(p) => Some(
                Host {
                    alias: p.alias,
                    user: p.user,
                    host: p.host,
                    port: p.port,
                    secret_ref: None,
                    auth: AuthMethod::Agent,
                    folder: None,
                },
            ),
            None => None,
        };
        let mut form = HostForm::new_inner(
            workspace,
            match &seed {
                Some(h) => Some(h),
                None => None,
            },
            secrets_degraded,
            preferred_key,
        );
        form.save_to = preselect(default_scope, active);
        if prefer_key {
            form.auth = AuthChoice::Key;
        }
        form
    }

    /// An edit form on `original`, writing back into `origin`; the `save to:` row
    /// shows the origin.
    pub fn new_edit(
        original: Host,
        origin: Scope,
        workspace: Option<(Scope, String)>,
        secrets_degraded: bool,
        preferred_key: Option<String>,
    ) -> (f: HostForm)
        ensures
            f.mode == (FormMode::Edit { original, origin }),
            f.workspace == workspace,
            f.save_to == Some(
                match origin {
                    Scope::Global => SaveTarget::Global,
                    Scope::Workspace(_) => SaveTarget::Workspace,
                },
            ),
            opened_on(f, Some(original), secrets_degraded, preferred_key),
    {
        let mut form = HostForm::new_inner(workspace, Some(&original), secrets_degraded, preferred_key);
        form.save_to = Some(origin_target(&origin));
        form.mode = FormMode::Edit { original, origin };
        form
    }

    /// The field focused on opening: the alias when adding, the user when editing
    /// (the alias is locked there).
    pub fn focus_first(&self) -> (r: HostField)
        ensures
            r == (if self.mode is Add {
                HostField::Alias
            } else {
                HostField::User
            }),
    {
        match &self.mode {
            FormMode::Add => HostField::Alias,
            FormMode::Edit { .. } => HostField::User,
        }
    }

    /// Show an owner-side failure (guard, keyring, store) on the error line.
    pub fn set_error(&mut self, msg: String)
        ensures
            *final(self) == (HostForm { error: Some(msg), ..*old(self) }),
    {
        self.error = Some(msg);
    }

    /// Switch the auth segment, clearing the secret fields that no longer apply
    /// ([`auth_switch_clears`]); choosing the current segment changes nothing.
    pub fn set_auth(&mut self, choice: AuthChoice)
        ensures
            old(self).auth == choice ==> *final(self) == *old(self),
            old(self).auth != choice ==> *final(self) == (HostForm {
                auth: choice,
                password: if choice == AuthChoice::Password {
                    old(self).password
                } else {
                    final(self).password
                },
                passphrase: if choice == AuthChoice::Key {
                    old(self).passphrase
                } else {
                    final(self).passphrase
                },
                ..*old(self)
            }),
            old(self).auth != choice && choice != AuthChoice::Password
                ==> final(self).password@.len() == 0,
            old(self).auth != choice && choice != AuthChoice::Key
                ==> final(self).passphrase@.len() == 0,
    {
        match auth_switch_clears(self.auth, choice) {
            None => {},
            Some((clear_password, clear_passphrase)) => {
                self.auth = choice;
                if clear_password {
                    self.password = String::new();
                }
                if clear_passphrase {
                    self.passphrase = String::new();
                }
            },
        }
    }

    /// Point the key-path field at `path` (the key picker's and the file dialog's one
    /// write into the form) and clear the error line.
    pub fn set_key_path(&mut self, path: String)
        ensures
            *final(self) == (HostForm { key_path: path, error: None, ..*old(self) }),
    {
        self.key_path = path;
        self.error = None;
    }

    /// Press Save: the submission [`submission_spec`] gives for the fields, with the
    /// error line cleared; or no event and the refusal on the error line. The fields
    /// themselves are untouched.
    pub fn submit(&mut self) -> (ev: Option<HostFormEvent>)
        ensures
            *final(self) == (HostForm { error: final(self).error, ..*old(self) }),
            ({
                let f = *old(self);
                match ev {
                    Some(HostFormEvent::Submit(b)) => final(self).error is None && submission_spec(
                        f.mode,
                        form_input(f),
                        f.save_to,
                        workspace_scope(f.workspace),
                        f.password@,
                        f.passphrase@,
                        Ok(*b),
                    ),
                    Some(HostFormEvent::Cancel) => false,
                    None => final(self).error matches Some(e) && submission_spec(
                        f.mode,
                        form_input(f),
                        f.save_to,
                        workspace_scope(f.workspace),
                        f.password@,
                        f.passphrase@,
                        Err(e),
                    ),
                }
            }),
    {
        let input = FormInput {
            alias: self.alias.clone(),
            user: self.user.clone(),
            host: self.host.clone(),
            port: self.port.clone(),
            auth: self.auth,
            key_path: self.key_path.clone(),
        };
        let ws = match &self.workspace {
            Some((scope, _)) => Some(scope),
            None => None,
        };
        match host_submission(
            &self.mode,
            &input,
            self.save_to,
            ws,
            self.password.as_str(),
            self.passphrase.as_str(),
        ) {
            Ok(sub) => {
                self.error = None;
                Some(HostFormEvent::Submit(Box::new(sub)))
            },
            Err(e) => {
                self.error = Some(e);
                None
            },
        }
    }
}

// ---- the `save to:` picker -----------------------------------------------------------

/// One option of the `save to:` picker: its title and note, the layer it picks, whether
/// it can be chosen, and whether it is the current choice.
#[derive(Clone, Copy, Debug, PartialEq, Eq)]
pub struct SaveToRow {
    pub title: &'static str,
    pub note: &'static str,
    pub target: SaveTarget,
    pub enabled: bool,
    pub selected: bool,
}

/// The picker's two options: `workspace` (choosable only while a workspace is focused)
/// and `global`; neither is choosable while editing, where the layer is fixed.
pub fn save_to_rows(locked: bool, ws_active: bool, save_to: Option<SaveTarget>, workspace_note: &'static str) -> (r: (
    SaveToRow,
    SaveToRow,
))
    ensures
        r.0 == (SaveToRow {
            title: r.0.title,
            note: workspace_note,
            target: SaveTarget::Workspace,
            enabled: ws_active && !locked,
            selected: save_to == Some(SaveTarget::Workspace),
        }),
        r.0.title@ == "workspace"@,
        r.1 == (SaveToRow {
            title: r.1.title,
            note: r.1.note,
            target: SaveTarget::Global,
            enabled: !locked,
            selected: save_to == Some(SaveTarget::Global),
        }),
        r.1.title@ == "global"@,
        r.1.note@ == "— everywhere · never lost"@,
{
    (
        SaveToRow {
            title: "workspace",
            note: workspace_note,
            target: SaveTarget::Workspace,
            enabled: ws_active && !locked,
            selected: match save_to {
                Some(SaveTarget::Workspace) => true,
                _ => false,
            },
        },
        SaveToRow {
            title: "global",
            note: "— everywhere · never lost",
            target: SaveTarget::Global,
            enabled: !locked,
            selected: match save_to {
                Some(SaveTarget::Global) => true,
                _ => false,
            },
        },
    )
}

impl HostForm {
    /// The picker: its label (fixed while editing) and its two options; the workspace
    /// option says why it is off when no workspace is focused.
    pub fn save_to_view(&self) -> (r: (&'static str, (SaveToRow, SaveToRow)))
        ensures
            r.0@ == (if self.mode is Edit {
                "save to — fixed while editing (use ⤒/⤓ to move a host)"@
            } else {
                "save to:"@
            }),
            r.1.0.enabled == (self.workspace is Some && self.mode is Add),
            r.1.1.enabled == self.mode is Add,
            r.1.0.selected == (self.save_to == Some(SaveTarget::Workspace)),
            r.1.1.selected == (self.save_to == Some(SaveTarget::Global)),
            r.1.0.note@ == (if self.workspace is Some {
                "— .sid/ · travels with git"@
            } else {
                "— no workspace focused"@
            }),
    {
        let locked = match &self.mode {
            FormMode::Edit { .. } => true,
            FormMode::Add => false,
        };
        let ws_active = self.workspace.is_some();
        let note = match workspace_option_note(ws_active) {
            Some(n) => n,
            None => "— .sid/ · travels with git",
        };
        let label = if locked {
            "save to — fixed while editing (use ⤒/⤓ to move a host)"
        } else {
            "save to:"
        };
        (label, save_to_rows(locked, ws_active, self.save_to, note))
    }

    /// A click on a `save to:` option: only a choosable one takes. Says whether it did.
    pub fn choose_save_to(&mut self, target: SaveTarget) -> (taken: bool)
        ensures
            taken == save_target_choosable(*old(self), target),
            taken ==> *final(self) == (HostForm { save_to: Some(target), ..*old(self) }),
            !taken ==> *final(self) == *old(self),
    {
        let ok = match target {
            SaveTarget::Workspace => self.workspace.is_some() && self.mode_is_add(),
            SaveTarget::Global => self.mode_is_add(),
        };
        if ok {
            self.save_to = Some(target);
        }
        ok
    }

    fn mode_is_add(&self) -> (b: bool)
        ensures
            b == self.mode is Add,
    {
        match &self.mode {
            FormMode::Add => true,
            FormMode::Edit { .. } => false,
        }
    }
}

/// Whether a host form's `save to:` option for `target` can be chosen.
pub open spec fn save_target_choosable(f: HostForm, target: SaveTarget) -> bool {
    f.mode is Add && (target == SaveTarget::Global || f.workspace is Some)
}

} // verus!
