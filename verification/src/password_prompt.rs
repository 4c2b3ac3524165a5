//! The connect-time password prompt: what it accepts as a password.

use vstd::prelude::*;
use crate::text::{chars_of, push_all};

verus! {

/// Validate the typed password: anything but the empty string, kept exactly as typed
/// (a password's spaces are part of it, so nothing is trimmed).
pub fn validate_password(raw: &str) -> (r: Result<String, String>)
    ensures
        raw@.len() == 0 ==> (r matches Err(e) && e@ == "enter the password"@),
        raw@.len() > 0 ==> (r matches Ok(p) && p@ == raw@),
{
    if raw.is_empty() {
        Err(String::from_str("enter the password"))
    } else {
        Ok(String::from_str(raw))
    }
}

/// Events the modal hands its owner.
#[derive(Debug, PartialEq, Eq)]
pub enum PasswordPromptEvent {
    /// Dismissed without a password; the attempt that asked stays failed.
    Cancel,
    /// The password as typed, handed over exactly once.
    Submit(String),
}

/// The connect-time password prompt: what it is for, what has been typed, and the
/// error line.
#[derive(Debug)]
pub struct PasswordPromptModal {
    /// What the password is for (`user@host`, a connection's name).
    pub label: String,
    /// The masked field's content.
    pub password: String,
    /// The error line, when the last submit was refused.
    pub error: Option<String>,
}

impl PasswordPromptModal {
    /// A fresh prompt for `label`: an empty field and no error.
    pub fn new(label: String) -> (m: PasswordPromptModal)
        ensures
            m.label == label,
            m.password@.len() == 0,
            m.error is None,
    {
        PasswordPromptModal { label, password: String::new(), error: None }
    }

    /// The prompt's title, `password for {label}`.
    pub fn title(&self) -> (t: String)
        ensures
            t@ == "password for "@ + self.label@,
    {
        let mut t = String::from_str("password for ");
        push_all(&mut t, &chars_of(self.label.as_str()));
        t
    }

    /// Submit the field: the password as typed, or — on an empty field — no event and
    /// the reason on the error line. Nothing else changes.
    pub fn submit(&mut self) -> (ev: Option<PasswordPromptEvent>)
        ensures
            final(self).label == old(self).label,
            final(self).password == old(self).password,
            old(self).password@.len() == 0 ==> (ev is None && (final(self).error matches Some(e)
                && e@ == "enter the password"@)),
            old(self).password@.len() > 0 ==> (ev matches Some(PasswordPromptEvent::Submit(p))
                && p@ == old(self).password@ && final(self).error == old(self).error),
    {
        match validate_password(self.password.as_str()) {
            Ok(p) => Some(PasswordPromptEvent::Submit(p)),
            Err(msg) => {
                self.error = Some(msg);
                None
            },
        }
    }
}

} // verus!
