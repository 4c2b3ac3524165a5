//! The config-file editor's decisions: what it offers for a file (edit directly,
//! edit after an unlock, show with an unlock, or read-only), when Save is live, how an
//! elevated read or save is classified, and the load gate every opened file passes.

use vstd::prelude::*;
use crate::secrets::copy_opt;
use vstd::utf8::{valid_utf8, decode_utf8};
use crate::numeral::{decimal, push_decimal};
use crate::text::{push_char, utf8_string, push_all, chars_of, str_eq};

verus! {

/// Load cap for a file opened in the editor: 1 MiB.
pub const CONFIG_MAX_BYTES: u64 = 1048576;

/// How this process can reach a file, as probed without privileges.
#[derive(Clone, Copy, Debug, PartialEq, Eq, Structural)]
pub enum Access {
    /// Readable and writable.
    ReadWrite,
    /// Readable, but writing needs root (`/etc/fstab`).
    ReadOnly,
    /// Not even readable without root (`/etc/sudoers`).
    Denied,
    /// Not there at all.
    Missing,
}

/// Whether a privileged path would help with a file of this access.
pub open spec fn needs_elevation(a: Access) -> bool {
    a == Access::ReadOnly || a == Access::Denied
}

/// Why a privileged operation failed.
#[derive(Clone, Debug, PartialEq, Eq)]
pub enum PrivError {
    /// The password was wrong.
    AuthFailed,
    /// The user may not elevate at all (not a sudoer).
    NotPermitted(String),
    /// No elevation mechanism is available.
    Unavailable(String),
    /// The elevation helper did not answer in time.
    Timeout,
    /// The path was refused before anything ran.
    UnsafePath(String),
    /// The privileged read or write itself failed.
    Io(String),
}

/// Only a mistyped password is worth another try.
pub open spec fn retryable(e: PrivError) -> bool {
    e is AuthFailed
}

/// The text shown for an error; each kind that carries a reason shows it.
pub open spec fn error_text(e: PrivError) -> Seq<char> {
    match e {
        PrivError::AuthFailed => "incorrect password"@,
        PrivError::NotPermitted(s) => "not permitted: "@ + s@,
        PrivError::Unavailable(s) => "privilege escalation unavailable: "@ + s@,
        PrivError::Timeout => "timed out waiting for the password check"@,
        PrivError::UnsafePath(s) => "refused unsafe path: "@ + s@,
        PrivError::Io(s) => "i/o error: "@ + s@,
    }
}

impl PrivError {
    /// Whether prompting again could succeed: only after a mistyped password.
    pub fn is_retryable(&self) -> (b: bool)
        ensures
            b == retryable(*self),
    {
        match self {
            PrivError::AuthFailed => true,
            _ => false,
        }
    }

    /// The error's text.
    pub fn message(&self) -> (s: String)
        ensures
            s@ == error_text(*self),
    {
        let (head, tail) = match self {
            PrivError::AuthFailed => {
                return String::from_str("incorrect password");
            },
            PrivError::Timeout => {
                return String::from_str("timed out waiting for the password check");
            },
            PrivError::NotPermitted(s) => ("not permitted: ", s),
            PrivError::Unavailable(s) => ("privilege escalation unavailable: ", s),
            PrivError::UnsafePath(s) => ("refused unsafe path: ", s),
            PrivError::Io(s) => ("i/o error: ", s),
        };
        let mut m = String::from_str(head);
        m.append(tail.as_str());
        m
    }
}

/// What the editor offers for the open file.
#[derive(Clone, Copy, Debug, PartialEq, Eq, Structural)]
pub enum EditorMode {
    /// Ordinary file: edit it, save it directly.
    Direct,
    /// Unlocked: edit it, and save through the privileged path.
    Elevated,
    /// Root-owned and locked; `has_content` when it can at least be shown.
    NeedsRoot { has_content: bool },
    /// Read-only with no unlock offered: no password would help.
    Sealed,
}

/// The mode for a file of `access`, given whether an accepted elevation secret is
/// held this session.
pub open spec fn mode_spec(access: Access, elevated: bool) -> EditorMode {
    match access {
        Access::ReadWrite => EditorMode::Direct,
        Access::Missing => EditorMode::Sealed,
        Access::ReadOnly => if elevated {
            EditorMode::Elevated
        } else {
            EditorMode::NeedsRoot { has_content: true }
        },
        Access::Denied => if elevated {
            EditorMode::Elevated
        } else {
            EditorMode::NeedsRoot { has_content: false }
        },
    }
}

/// Decide the mode: derived from the probe and the held secret, never stored.
pub fn editor_mode(access: Access, elevated: bool) -> (m: EditorMode)
    ensures
        m == mode_spec(access, elevated),
{
    match access {
        Access::ReadWrite => EditorMode::Direct,
        Access::Missing => EditorMode::Sealed,
        Access::ReadOnly => if elevated {
            EditorMode::Elevated
        } else {
            EditorMode::NeedsRoot { has_content: true }
        },
        Access::Denied => if elevated {
            EditorMode::Elevated
        } else {
            EditorMode::NeedsRoot { has_content: false }
        },
    }
}

/// Whether the Save affordance is live: an editable mode, unsaved edits, and no save
/// already in flight.
pub fn can_save(mode: EditorMode, dirty: bool, saving: bool) -> (b: bool)
    ensures
        b == ((mode == EditorMode::Direct || mode == EditorMode::Elevated) && dirty && !saving),
{
    let editable = match mode {
        EditorMode::Direct => true,
        EditorMode::Elevated => true,
        _ => false,
    };
    editable && dirty && !saving
}

/// Whether a save goes through the privileged path (with the held secret) rather than
/// the direct write.
pub fn saves_elevated(mode: EditorMode) -> (b: bool)
    ensures
        b == (mode == EditorMode::Elevated),
{
    match mode {
        EditorMode::Elevated => true,
        _ => false,
    }
}

/// Whether the open-time load reads the file: only what this process may read.
pub fn reads_at_open(access: Access) -> (b: bool)
    ensures
        b == (access == Access::ReadWrite || access == Access::ReadOnly),
{
    match access {
        Access::ReadWrite | Access::ReadOnly => true,
        Access::Denied | Access::Missing => false,
    }
}

// ---- the load gate -----------------------------------------------------------------

/// The load gate: more than [`CONFIG_MAX_BYTES`] is refused, then anything that is
/// not UTF-8; what passes is the text.
pub open spec fn gate_spec(bytes: Seq<u8>) -> Result<Seq<char>, Seq<char>> {
    if bytes.len() > CONFIG_MAX_BYTES {
        Err("too large to edit (> 1 MiB) — view it with a pager instead"@)
    } else if !valid_utf8(bytes) {
        Err("binary file — cannot edit as text"@)
    } else {
        Ok(decode_utf8(bytes))
    }
}

/// Gate already-read bytes: the size cap, then the UTF-8 check.
pub fn gate_loaded_bytes(bytes: Vec<u8>) -> (r: Result<String, String>)
    ensures
        match gate_spec(bytes@) {
            Ok(t) => r matches Ok(s) && s@ == t,
            Err(m) => r matches Err(e) && e@ == m,
        },
{
    if bytes.len() as u64 > CONFIG_MAX_BYTES {
        return Err(String::from_str("too large to edit (> 1 MiB) — view it with a pager instead"));
    }
    match utf8_string(bytes) {
        Some(s) => Ok(s),
        None => Err(String::from_str("binary file — cannot edit as text")),
    }
}

// ---- classifying privileged results ------------------------------------------------

/// What an unlock attempt's result means for the prompt.
#[derive(Debug, PartialEq, Eq)]
pub enum UnlockOutcome {
    /// The elevated read passed the load gate: hold the secret, show the editor.
    Unlocked(String),
    /// Keep the prompt open with this error: only for a mistyped password.
    Retry(String),
    /// Close the prompt and show this: no password will change the outcome.
    Fatal(String),
}

/// Classify an elevated read. The load gate runs here too, so a file that unlocks but
/// is not editable text is `Fatal` (the password was right), never a retry.
pub fn unlock_outcome(result: Result<Vec<u8>, PrivError>) -> (o: UnlockOutcome)
    ensures
        match result {
            Ok(bytes) => match gate_spec(bytes@) {
                Ok(t) => o matches UnlockOutcome::Unlocked(s) && s@ == t,
                Err(m) => o matches UnlockOutcome::Fatal(s) && s@ == m,
            },
            Err(e) => if retryable(e) {
                o matches UnlockOutcome::Retry(s) && s@ == error_text(e)
            } else {
                o matches UnlockOutcome::Fatal(s) && s@ == error_text(e)
            },
        },
{
    match result {
        Ok(bytes) => match gate_loaded_bytes(bytes) {
            Ok(text) => UnlockOutcome::Unlocked(text),
            Err(notice) => UnlockOutcome::Fatal(notice),
        },
        Err(err) => if err.is_retryable() {
            UnlockOutcome::Retry(err.message())
        } else {
            UnlockOutcome::Fatal(err.message())
        },
    }
}

/// What a privileged save's result means.
#[derive(Debug, PartialEq, Eq)]
pub enum SaveOutcome {
    /// Written; the buffer is clean again.
    Saved,
    /// The held secret was rejected: drop it and ask again.
    Reauth(String),
    /// Show this and keep the buffer dirty.
    Failed(String),
}

/// Classify a privileged save.
pub fn save_outcome(result: Result<(), PrivError>) -> (o: SaveOutcome)
    ensures
        match result {
            Ok(()) => o == SaveOutcome::Saved,
            Err(e) => if retryable(e) {
                o matches SaveOutcome::Reauth(s) && s@ == error_text(e)
            } else {
                o matches SaveOutcome::Failed(s) && s@ == error_text(e)
            },
        },
{
    match result {
        Ok(()) => SaveOutcome::Saved,
        Err(err) => if err.is_retryable() {
            SaveOutcome::Reauth(err.message())
        } else {
            SaveOutcome::Failed(err.message())
        },
    }
}

// ---- opening and unlocking ---------------------------------------------------------

/// What the editor's body shows once the open-time load lands.
#[derive(Debug, PartialEq, Eq)]
pub enum OpenedBody {
    /// The loaded text, in the editor.
    Editor(String),
    /// A read-only notice (the load gate's or the read's message).
    Notice(String),
    /// Nothing to show until an unlock succeeds: the body is the unlock affordance.
    Locked,
    /// The file does not exist.
    Missing,
}

/// The body for a probe of `access` and the load's result (`None` when the file was
/// not read): loaded text goes to the editor, a refused load becomes a notice, an
/// unread file is locked when elevation would help and missing otherwise.
pub fn opened_body(access: Access, content: Option<Result<String, String>>) -> (b: OpenedBody)
    ensures
        match content {
            Some(Ok(t)) => b == OpenedBody::Editor(t),
            Some(Err(m)) => b == OpenedBody::Notice(m),
            None => if needs_elevation(access) {
                b == OpenedBody::Locked
            } else {
                b == OpenedBody::Missing
            },
        },
{
    match content {
        Some(Ok(t)) => OpenedBody::Editor(t),
        Some(Err(m)) => OpenedBody::Notice(m),
        None => match access {
            Access::ReadOnly | Access::Denied => OpenedBody::Locked,
            _ => OpenedBody::Missing,
        },
    }
}

/// What pressing Unlock does.
#[derive(Debug, PartialEq, Eq)]
pub enum UnlockSubmit {
    /// An attempt is already running: nothing.
    Ignore,
    /// Nothing typed: show this and stay.
    Error(String),
    /// Try the typed password.
    Attempt,
}

/// Pressing Unlock: ignored while an attempt runs, refused with a hint on an empty
/// field, otherwise an attempt.
pub fn unlock_submit(busy: bool, typed: &str) -> (r: UnlockSubmit)
    ensures
        busy ==> r == UnlockSubmit::Ignore,
        !busy && typed@.len() == 0 ==> (r matches UnlockSubmit::Error(m) && m@
            == "enter your password"@),
        !busy && typed@.len() > 0 ==> r == UnlockSubmit::Attempt,
{
    if busy {
        UnlockSubmit::Ignore
    } else if typed.is_empty() {
        UnlockSubmit::Error(String::from_str("enter your password"))
    } else {
        UnlockSubmit::Attempt
    }
}

/// The name of the private sibling a save writes before its atomic rename:
/// `.<name>.sid-tmp-<pid>` — hidden, and beside the file so the rename never crosses
/// a filesystem.
pub open spec fn temp_name_spec(file_name: Seq<char>, pid: nat) -> Seq<char> {
    seq!['.'] + file_name + ".sid-tmp-"@ + decimal(pid)
}

/// The sibling temp file's name for `file_name` in process `pid`.
pub fn sibling_temp_name(file_name: &str, pid: u32) -> (r: String)
    ensures
        r@ == temp_name_spec(file_name@, pid as nat),
{
    let mut r = String::new();
    push_char(&mut r, '.');
    r.append(file_name);
    r.append(".sid-tmp-");
    push_decimal(&mut r, pid as u128);
    proof {
        assert(r@ =~= temp_name_spec(file_name@, pid as nat));
    }
    r
}

// ---- the editor's state --------------------------------------------------------------

/// What the editor's body shows.
#[derive(Debug, PartialEq, Eq)]
pub enum EditorBody {
    /// The open-time probe and read are still running.
    Loading,
    /// A read-only notice in place of the editor.
    Notice(String),
    /// Unreadable without root: the body is the unlock offer.
    Locked,
    /// The loaded text, and whether it has unsaved edits.
    Editor { text: String, dirty: bool },
}

/// The unlock prompt over the editor: its masked field, the last error, and whether an
/// attempt is running.
#[derive(Debug, PartialEq, Eq)]
pub struct UnlockPrompt {
    pub password: String,
    pub error: Option<String>,
    pub busy: bool,
}

/// What a save writes: the buffer, and — for a save through the privileged path —
/// the held secret it authenticates with.
#[derive(Debug, PartialEq, Eq)]
pub struct SaveRequest {
    pub contents: String,
    pub secret: Option<String>,
}

/// One open config file: its path (as shown), what the body shows, how the process can
/// reach it, the accepted elevation secret, when one is held, the unlock prompt, the last save's error, and whether a save runs. The
/// path doubles as the identity of the open file: an outcome for another path is for a
/// file since superseded and changes nothing.
#[derive(Debug)]
pub struct ConfigEditorState {
    pub path: String,
    pub body: EditorBody,
    pub access: Access,
    pub elevated: Option<String>,
    pub unlock: Option<UnlockPrompt>,
    pub save_error: Option<String>,
    pub saving: bool,
}

/// `a` followed by `b`.
fn joined(a: &str, b: &str) -> (r: String)
    ensures
        r@ == a@ + b@,
{
    let mut r = String::from_str(a);
    push_all(&mut r, &chars_of(b));
    r
}

/// The body's buffer state: its dirtiness when it is an editor, else clean.
pub open spec fn body_dirty(b: EditorBody) -> bool {
    match b {
        EditorBody::Editor { dirty, .. } => dirty,
        _ => false,
    }
}

/// The unlock prompt's submit button: `unlocking…` while an attempt runs, else
/// `unlock`.
pub fn unlock_submit_label(busy: bool) -> (s: &'static str)
    ensures
        s@ == (if busy {
            "unlocking…"@
        } else {
            "unlock"@
        }),
{
    if busy {
        "unlocking…"
    } else {
        "unlock"
    }
}

impl ConfigEditorState {
    /// A freshly opened editor for `path`: loading, assumed writable until the probe
    /// answers, nothing held, no prompt, no error, not saving.
    pub fn open(path: String) -> (s: ConfigEditorState)
        ensures
            s.path == path && s.body is Loading && s.access == Access::ReadWrite && s.elevated is None
                && s.unlock is None && s.save_error is None && !s.saving,
    {
        ConfigEditorState {
            path,
            body: EditorBody::Loading,
            access: Access::ReadWrite,
            elevated: None,
            unlock: None,
            save_error: None,
            saving: false,
        }
    }

    /// What the editor offers now, from the probe and the held secret.
    pub fn mode(&self) -> (m: EditorMode)
        ensures
            m == mode_spec(self.access, self.elevated is Some),
    {
        editor_mode(self.access, self.elevated.is_some())
    }

    /// The open-time load for `path` landed (outer `Err`: the task died): the probe's
    /// access, and the gated text when the file was read. Loaded text goes to the
    /// editor, a refused load becomes its notice, an unread file is locked when an
    /// unlock would help and otherwise reported missing. Says whether it applied.
    pub fn finish_open(
        &mut self,
        path: &str,
        outcome: Result<(Access, Option<Result<String, String>>), String>,
    ) -> (applied: bool)
        ensures
            applied == (path@ == old(self).path@),
            !applied ==> *final(self) == *old(self),
            applied ==> match outcome {
                Err(j) => (final(self).body matches EditorBody::Notice(m) && m@
                    == "load task panicked: "@ + j@) && *final(self) == (ConfigEditorState {
                    body: final(self).body,
                    ..*old(self)
                }),
                Ok((access, content)) => *final(self) == (ConfigEditorState {
                    access,
                    body: final(self).body,
                    ..*old(self)
                }) && match content {
                    Some(Ok(t)) => final(self).body == (EditorBody::Editor { text: t, dirty: false }),
                    Some(Err(m)) => final(self).body == EditorBody::Notice(m),
                    None => if needs_elevation(access) {
                        final(self).body is Locked
                    } else {
                        final(self).body matches EditorBody::Notice(m) && m@ == old(self).path@
                            + " does not exist"@
                    },
                },
            },
    {
        if !str_eq(path, self.path.as_str()) {
            return false;
        }
        match outcome {
            Err(j) => {
                self.body = EditorBody::Notice(joined("load task panicked: ", j.as_str()));
            },
            Ok((access, content)) => {
                self.access = access;
                self.body = match opened_body(access, content) {
                    OpenedBody::Editor(t) => EditorBody::Editor { text: t, dirty: false },
                    OpenedBody::Notice(m) => EditorBody::Notice(m),
                    OpenedBody::Locked => EditorBody::Locked,
                    OpenedBody::Missing => EditorBody::Notice(
                        joined(self.path.as_str(), " does not exist"),
                    ),
                };
            },
        }
        true
    }

    /// Esc: with the unlock prompt open, only the prompt closes (the buffer behind it
    /// stays); otherwise the editor itself is to close, which is returned.
    pub fn dismiss_layer(&mut self) -> (close_editor: bool)
        ensures
            close_editor == old(self).unlock is None,
            *final(self) == (ConfigEditorState { unlock: None, ..*old(self) }),
    {
        if self.unlock.is_some() {
            self.unlock = None;
            false
        } else {
            true
        }
    }

    /// Open the unlock prompt with an empty field, carrying `error` from the attempt
    /// that led here.
    pub fn open_unlock(&mut self, error: Option<String>)
        ensures
            final(self).unlock matches Some(p) && p.password@.len() == 0 && p.error == error
                && !p.busy,
            *final(self) == (ConfigEditorState { unlock: final(self).unlock, ..*old(self) }),
    {
        self.unlock = Some(UnlockPrompt { password: String::new(), error, busy: false });
    }

    /// Close the unlock prompt; the typed password goes with it.
    pub fn close_unlock(&mut self)
        ensures
            *final(self) == (ConfigEditorState { unlock: None, ..*old(self) }),
    {
        self.unlock = None;
    }

    /// Press Unlock: nothing without a prompt or while an attempt runs; an empty field
    /// is refused with a hint; otherwise the attempt starts (busy, no error) and the
    /// typed password is returned for the privileged read.
    pub fn submit_unlock(&mut self) -> (attempt: Option<String>)
        ensures
            match old(self).unlock {
                None => attempt is None && *final(self) == *old(self),
                Some(p) => if p.busy {
                    attempt is None && *final(self) == *old(self)
                } else if p.password@.len() == 0 {
                    attempt is None && (final(self).unlock matches Some(q) && q.password
                        == p.password && !q.busy && (q.error matches Some(e) && e@
                        == "enter your password"@)) && *final(self) == (ConfigEditorState {
                        unlock: final(self).unlock,
                        ..*old(self)
                    })
                } else {
                    (attempt matches Some(t) && t@ == p.password@) && final(self).unlock == Some(
                        UnlockPrompt { busy: true, error: None, ..p },
                    ) && *final(self) == (ConfigEditorState {
                        unlock: final(self).unlock,
                        ..*old(self)
                    })
                },
            },
    {
        let prompt = match self.unlock.take() {
            Some(p) => p,
            None => {
                return None;
            },
        };
        match unlock_submit(prompt.busy, prompt.password.as_str()) {
            UnlockSubmit::Ignore => {
                self.unlock = Some(prompt);
                None
            },
            UnlockSubmit::Error(m) => {
                self.unlock = Some(
                    UnlockPrompt { password: prompt.password, error: Some(m), busy: prompt.busy },
                );
                None
            },
            UnlockSubmit::Attempt => {
                let typed = prompt.password.clone();
                self.unlock = Some(
                    UnlockPrompt { password: prompt.password, error: None, busy: true },
                );
                Some(typed)
            },
        }
    }

    /// The unlock attempt for `path` with `secret` (the password
    /// [`Self::submit_unlock`] handed out) finished (outer `Err`: the task died):
    /// unlocked text opens in the editor with that secret held for later elevated saves
    /// and the prompt closed; a mistyped
    /// password keeps the prompt, with its message and an emptied field; anything else
    /// closes the prompt and shows its message. Says whether it applied.
    pub fn finish_unlock(&mut self, path: &str, secret: String, outcome: Result<UnlockOutcome, String>) -> (applied:
        bool)
        ensures
            applied == (path@ == old(self).path@),
            !applied ==> *final(self) == *old(self),
            applied ==> final(self).path == old(self).path && final(self).access == old(self).access && final(self).saving == old(self).saving && match outcome {
                Ok(UnlockOutcome::Unlocked(t)) => final(self).elevated == Some(secret) && final(self).unlock is None
                    && final(self).save_error is None && final(self).body == (EditorBody::Editor {
                    text: t,
                    dirty: false,
                }),
                Ok(UnlockOutcome::Retry(m)) => final(self).elevated == old(self).elevated
                    && final(self).save_error == old(self).save_error && final(self).body == old(self).body && match old(self).unlock {
                    Some(_) => final(self).unlock matches Some(q) && q.password@.len() == 0
                        && !q.busy && q.error == Some(m),
                    None => final(self).unlock is None,
                },
                Ok(UnlockOutcome::Fatal(m)) => final(self).elevated == old(self).elevated
                    && final(self).save_error == old(self).save_error && final(self).unlock is None
                    && final(self).body == EditorBody::Notice(m),
                Err(j) => final(self).elevated == old(self).elevated && final(self).save_error
                    == old(self).save_error && final(self).unlock is None && (final(self).body matches EditorBody::Notice(n) && n@ == "unlock task panicked: "@
                    + j@),
            },
    {
        if !str_eq(path, self.path.as_str()) {
            return false;
        }
        match outcome {
            Ok(UnlockOutcome::Unlocked(t)) => {
                self.elevated = Some(secret);
                self.unlock = None;
                self.save_error = None;
                self.body = EditorBody::Editor { text: t, dirty: false };
            },
            Ok(UnlockOutcome::Retry(m)) => {
                if self.unlock.is_some() {
                    self.unlock = Some(
                        UnlockPrompt { password: String::new(), error: Some(m), busy: false },
                    );
                }
            },
            Ok(UnlockOutcome::Fatal(m)) => {
                self.unlock = None;
                self.body = EditorBody::Notice(m);
            },
            Err(j) => {
                self.unlock = None;
                self.body = EditorBody::Notice(joined("unlock task panicked: ", j.as_str()));
            },
        }
        true
    }

    /// The buffer changed to `text`: an editor body takes it and is dirty; any other
    /// body has no buffer and stays as it is.
    pub fn edit(&mut self, text: String)
        ensures
            old(self).body is Editor ==> final(self).body == (EditorBody::Editor {
                text,
                dirty: true,
            }),
            !(old(self).body is Editor) ==> final(self).body == old(self).body,
            *final(self) == (ConfigEditorState { body: final(self).body, ..*old(self) }),
    {
        if let EditorBody::Editor { .. } = &self.body {
            self.body = EditorBody::Editor { text, dirty: true };
        }
    }

    /// Whether Save is live: an editable mode, unsaved edits, no save running.
    pub fn can_save_now(&self) -> (b: bool)
        ensures
            b == ((mode_spec(self.access, self.elevated is Some) == EditorMode::Direct || mode_spec(
                self.access,
                self.elevated is Some,
            ) == EditorMode::Elevated) && body_dirty(self.body) && !self.saving),
    {
        let dirty = match &self.body {
            EditorBody::Editor { dirty, .. } => *dirty,
            _ => false,
        };
        can_save(self.mode(), dirty, self.saving)
    }

    /// Press Save: nothing unless [`Self::can_save_now`]; otherwise the save starts
    /// (saving, no error) and the buffer is returned, with the held secret exactly when
    /// the editor is in elevated mode (the save then goes through the privileged path).
    pub fn begin_save(&mut self) -> (r: Option<SaveRequest>)
        ensures
            !((mode_spec(old(self).access, old(self).elevated is Some) == EditorMode::Direct || mode_spec(
                old(self).access,
                old(self).elevated is Some,
            ) == EditorMode::Elevated) && body_dirty(old(self).body) && !old(self).saving) ==> r is None
                && *final(self) == *old(self),
            r matches Some(q) ==> (old(self).body matches EditorBody::Editor { text, .. } && q.contents
                == text) && q.secret == (if mode_spec(old(self).access, old(self).elevated is Some)
                == EditorMode::Elevated {
                old(self).elevated
            } else {
                None
            }) && *final(self) == (ConfigEditorState {
                saving: true,
                save_error: None,
                ..*old(self)
            }),
            ((mode_spec(old(self).access, old(self).elevated is Some) == EditorMode::Direct || mode_spec(
                old(self).access,
                old(self).elevated is Some,
            ) == EditorMode::Elevated) && body_dirty(old(self).body) && !old(self).saving) ==> r is Some,
    {
        if !self.can_save_now() {
            return None;
        }
        let contents = match &self.body {
            EditorBody::Editor { text, .. } => text.clone(),
            _ => {
                return None;
            },
        };
        let secret = if saves_elevated(self.mode()) {
            copy_opt(&self.elevated)
        } else {
            None
        };
        self.saving = true;
        self.save_error = None;
        Some(SaveRequest { contents, secret })
    }

    /// The save for `path` finished (outer `Err`: the task died): saved clears the
    /// buffer's dirtiness; a rejected held secret is dropped and the unlock prompt
    /// reopens with the message (the buffer stays dirty); a failure is the save error.
    /// Says whether it applied.
    pub fn finish_save(&mut self, path: &str, outcome: Result<SaveOutcome, String>) -> (applied: bool)
        ensures
            applied == (path@ == old(self).path@),
            !applied ==> *final(self) == *old(self),
            applied ==> !final(self).saving && final(self).path == old(self).path && final(self).access == old(self).access && match outcome {
                Ok(SaveOutcome::Saved) => final(self).elevated == old(self).elevated && final(self).unlock == old(self).unlock && final(self).save_error == old(self).save_error
                    && match old(self).body {
                    EditorBody::Editor { text, .. } => final(self).body == (EditorBody::Editor {
                        text,
                        dirty: false,
                    }),
                    b => final(self).body == b,
                },
                Ok(SaveOutcome::Reauth(m)) => final(self).elevated is None && final(self).body == old(self).body && final(self).save_error == old(self).save_error && (final(self).unlock matches Some(p) && p.password@.len() == 0 && !p.busy && p.error
                    == Some(m)),
                Ok(SaveOutcome::Failed(e)) => final(self).elevated == old(self).elevated && final(self).unlock == old(self).unlock && final(self).body == old(self).body && final(self).save_error == Some(e),
                Err(j) => final(self).elevated == old(self).elevated && final(self).unlock == old(self).unlock && final(self).body == old(self).body && (final(self).save_error matches Some(e) && e@ == "save task panicked: "@ + j@),
            },
    {
        if !str_eq(path, self.path.as_str()) {
            return false;
        }
        self.saving = false;
        match outcome {
            Ok(SaveOutcome::Saved) => {
                let clean = match &self.body {
                    EditorBody::Editor { text, .. } => Some(text.clone()),
                    _ => None,
                };
                if let Some(text) = clean {
                    self.body = EditorBody::Editor { text, dirty: false };
                }
            },
            Ok(SaveOutcome::Reauth(m)) => {
                self.elevated = None;
                self.open_unlock(Some(m));
            },
            Ok(SaveOutcome::Failed(e)) => {
                self.save_error = Some(e);
            },
            Err(j) => {
                self.save_error = Some(joined("save task panicked: ", j.as_str()));
            },
        }
        true
    }

    /// The banner above the body: the offer to unlock a readable root file, or the
    /// reminder that edits are saved as root; none otherwise.
    pub fn banner(&self) -> (r: Option<&'static str>)
        ensures
            mode_spec(self.access, self.elevated is Some) == (EditorMode::NeedsRoot { has_content: true })
                ==> (r matches Some(t) && t@ == "read-only — this file belongs to root"@),
            mode_spec(self.access, self.elevated is Some) == EditorMode::Elevated ==> (r matches Some(t)
                && t@ == "unlocked — edits are saved as root"@),
            mode_spec(self.access, self.elevated is Some) != (EditorMode::NeedsRoot { has_content: true })
                && mode_spec(self.access, self.elevated is Some) != EditorMode::Elevated ==> r is None,
    {
        match self.mode() {
            EditorMode::NeedsRoot { has_content: true } => Some("read-only — this file belongs to root"),
            EditorMode::Elevated => Some("unlocked — edits are saved as root"),
            _ => None,
        }
    }

    /// The save button's label and the save error line.
    pub fn save_texts(&self) -> (r: (&'static str, Option<String>))
        ensures
            r.0@ == (if self.saving {
                "saving…"@
            } else {
                "save"@
            }),
            match self.save_error {
                Some(e) => r.1 matches Some(l) && l@ == "save failed: "@ + e@,
                None => r.1 is None,
            },
    {
        let label = if self.saving {
            "saving…"
        } else {
            "save"
        };
        let line = match &self.save_error {
            Some(e) => Some(joined("save failed: ", e.as_str())),
            None => None,
        };
        (label, line)
    }
}

} // verus!
