//! The encrypted-file vault's unlock/create prompt: which passphrase it hands to the
//! vault, and the texts each side of the lifecycle shows.

use vstd::prelude::*;
use crate::text::str_eq;

verus! {

/// Which side of the encrypted-file vault's lifecycle the prompt is for.
#[derive(Debug, Clone, Copy, PartialEq, Eq, Structural)]
pub enum SecretUnlockMode {
    /// A vault file already exists — enter its passphrase.
    Unlock,
    /// No vault file exists yet — choose (and confirm) a new passphrase.
    Create,
}

/// Validate an unlock attempt: any non-empty passphrase, as typed.
pub fn validate_unlock(passphrase: &str) -> (r: Result<String, String>)
    ensures
        passphrase@.len() == 0 ==> (r matches Err(e) && e@ == "enter the vault passphrase"@),
        passphrase@.len() > 0 ==> (r matches Ok(p) && p@ == passphrase@),
{
    if passphrase.is_empty() {
        Err(String::from_str("enter the vault passphrase"))
    } else {
        Ok(String::from_str(passphrase))
    }
}

/// Validate a new vault passphrase: non-empty, and typed the same twice.
pub fn validate_create(passphrase: &str, confirm: &str) -> (r: Result<String, String>)
    ensures
        passphrase@.len() == 0 ==> (r matches Err(e) && e@ == "choose a passphrase"@),
        passphrase@.len() > 0 && passphrase@ != confirm@ ==> (r matches Err(e) && e@
            == "passphrases do not match"@),
        passphrase@.len() > 0 && passphrase@ == confirm@ ==> (r matches Ok(p) && p@
            == passphrase@),
{
    if passphrase.is_empty() {
        Err(String::from_str("choose a passphrase"))
    } else if !str_eq(passphrase, confirm) {
        Err(String::from_str("passphrases do not match"))
    } else {
        Ok(String::from_str(passphrase))
    }
}

/// The passphrase a submit hands to the vault (to unlock it, or to create it with),
/// or the message the prompt shows instead. Only the create side reads `confirm`.
pub fn validate_submit(mode: SecretUnlockMode, passphrase: &str, confirm: &str) -> (r: Result<
    String,
    String,
>)
    ensures
        passphrase@.len() == 0 ==> (r matches Err(e) && e@ == (match mode {
            SecretUnlockMode::Unlock => "enter the vault passphrase"@,
            SecretUnlockMode::Create => "choose a passphrase"@,
        })),
        passphrase@.len() > 0 && mode == SecretUnlockMode::Create && passphrase@ != confirm@ ==> (
        r matches Err(e) && e@ == "passphrases do not match"@),
        passphrase@.len() > 0 && (mode == SecretUnlockMode::Unlock || passphrase@ == confirm@)
            ==> (r matches Ok(p) && p@ == passphrase@),
{
    match mode {
        SecretUnlockMode::Unlock => validate_unlock(passphrase),
        SecretUnlockMode::Create => validate_create(passphrase, confirm),
    }
}

/// The prompt's title, hint and submit label for `mode`.
pub fn mode_texts(mode: SecretUnlockMode) -> (r: (&'static str, &'static str, &'static str))
    ensures
        mode == SecretUnlockMode::Unlock ==> r.0@ == "Unlock secret vault"@ && r.2@ == "Unlock"@
            && r.1@ == "the encrypted-file backend protects your stored passwords and key passphrases — enter its passphrase to use them this session."@,
        mode == SecretUnlockMode::Create ==> r.0@ == "Create secret vault"@ && r.2@ == "Create"@
            && r.1@ == "no OS keyring is in use, so sid needs a passphrase to protect the encrypted-file vault that will hold passwords and key passphrases instead."@,
{
    match mode {
        SecretUnlockMode::Unlock => (
            "Unlock secret vault",
            "the encrypted-file backend protects your stored passwords and key passphrases — enter its passphrase to use them this session.",
            "Unlock",
        ),
        SecretUnlockMode::Create => (
            "Create secret vault",
            "no OS keyring is in use, so sid needs a passphrase to protect the encrypted-file vault that will hold passwords and key passphrases instead.",
            "Create",
        ),
    }
}

/// Events the prompt hands its owner.
#[derive(Debug, PartialEq, Eq)]
pub enum SecretUnlockEvent {
    /// Dismissed without unlocking or creating.
    Cancel,
    /// The vault is unlocked (or was just created); the owner closes the prompt.
    Done,
}

/// What a submit asks of the vault: open it with this passphrase, or create it.
#[derive(Debug, PartialEq, Eq)]
pub enum VaultRequest {
    /// Unlock the existing vault file.
    Unlock(String),
    /// Create a new vault file protected by this passphrase.
    Create(String),
}

/// The unlock/create prompt: its mode, the two masked fields and the error line. The
/// vault itself is driven by the owner, which performs each [`VaultRequest`] and hands
/// the answer back to [`SecretUnlockModal::vault_answered`].
#[derive(Debug)]
pub struct SecretUnlockModal {
    /// Which side of the vault's lifecycle this prompt is for.
    pub mode: SecretUnlockMode,
    /// The passphrase field.
    pub passphrase: String,
    /// The confirmation field, read only when creating.
    pub confirm: String,
    /// The error line.
    pub error: Option<String>,
}

impl SecretUnlockModal {
    /// A fresh prompt in `mode`: empty fields, no error.
    pub fn new(mode: SecretUnlockMode) -> (m: SecretUnlockModal)
        ensures
            m.mode == mode,
            m.passphrase@.len() == 0,
            m.confirm@.len() == 0,
            m.error is None,
    {
        SecretUnlockModal { mode, passphrase: String::new(), confirm: String::new(), error: None }
    }

    /// Show `msg` on the error line.
    pub fn set_error(&mut self, msg: String)
        ensures
            final(self).error == Some(msg),
            final(self).mode == old(self).mode,
            final(self).passphrase == old(self).passphrase,
            final(self).confirm == old(self).confirm,
    {
        self.error = Some(msg);
    }

    /// Submit the fields: the request for the vault, or — when the fields do not pass
    /// [`validate_submit`] — no request and its message on the error line.
    pub fn submit(&mut self) -> (r: Option<VaultRequest>)
        ensures
            final(self).mode == old(self).mode,
            final(self).passphrase == old(self).passphrase,
            final(self).confirm == old(self).confirm,
            ({
                let m = old(self).mode;
                let p = old(self).passphrase@;
                let c = old(self).confirm@;
                if p.len() == 0 {
                    r is None && (final(self).error matches Some(e) && e@ == (match m {
                        SecretUnlockMode::Unlock => "enter the vault passphrase"@,
                        SecretUnlockMode::Create => "choose a passphrase"@,
                    }))
                } else if m == SecretUnlockMode::Create && p != c {
                    r is None && (final(self).error matches Some(e) && e@
                        == "passphrases do not match"@)
                } else {
                    final(self).error == old(self).error && match m {
                        SecretUnlockMode::Unlock => r matches Some(VaultRequest::Unlock(x)) && x@
                            == p,
                        SecretUnlockMode::Create => r matches Some(VaultRequest::Create(x)) && x@
                            == p,
                    }
                }
            }),
    {
        match validate_submit(self.mode, self.passphrase.as_str(), self.confirm.as_str()) {
            Ok(p) => match self.mode {
                SecretUnlockMode::Unlock => Some(VaultRequest::Unlock(p)),
                SecretUnlockMode::Create => Some(VaultRequest::Create(p)),
            },
            Err(msg) => {
                self.error = Some(msg);
                None
            },
        }
    }

    /// The vault's answer to the last request: done on success; otherwise its message
    /// on the error line and the prompt stays open.
    pub fn vault_answered(&mut self, result: Result<(), String>) -> (ev: Option<SecretUnlockEvent>)
        ensures
            final(self).mode == old(self).mode,
            final(self).passphrase == old(self).passphrase,
            final(self).confirm == old(self).confirm,
            match result {
                Ok(()) => ev matches Some(SecretUnlockEvent::Done) && final(self).error == old(
                    self,
                ).error,
                Err(m) => ev is None && final(self).error == Some(m),
            },
    {
        match result {
            Ok(()) => Some(SecretUnlockEvent::Done),
            Err(m) => {
                self.set_error(m);
                None
            },
        }
    }
}

} // verus!
