//! Secrets in the OS keyring, addressed by an opaque id: minting ids and staging a
//! save's keyring consequence. The library never talks to the keyring itself; it names
//! each write, lookup and delete a flow needs, and takes the keyring's answer back.
//! The screens never read a secret back into a field; they only stage new ones under
//! freshly minted ids and look stored ones up at connect time.

use vstd::prelude::*;
use crate::numeral::{decimal, push_decimal};

verus! {

/// Reads the system clock: nanoseconds since the Unix epoch, or 0 for a clock set
/// before it. Nothing is claimed of the value.
#[verifier::external_body]
pub(crate) fn unix_nanos() -> u128 {
    std::time::SystemTime::now()
        .duration_since(std::time::UNIX_EPOCH)
        .map(|d| d.as_nanos())
        .unwrap_or(0)
}

/// The keyring id `<prefix>-<name>-<nanos>`.
pub open spec fn secret_id(prefix: Seq<char>, name: Seq<char>, nanos: nat) -> Seq<char> {
    prefix + seq!['-'] + name + seq!['-'] + decimal(nanos)
}

/// The keyring id `<prefix>-<name>-<nanos>`.
pub fn secret_id_at(prefix: &str, name: &str, nanos: u128) -> (id: String)
    ensures
        id@ == secret_id(prefix@, name@, nanos as nat),
{
    let mut id = String::from_str(prefix);
    crate::text::push_char(&mut id, '-');
    id.append(name);
    crate::text::push_char(&mut id, '-');
    push_decimal(&mut id, nanos);
    proof {
        assert(id@ =~= secret_id(prefix@, name@, nanos as nat));
    }
    id
}

/// Mint an opaque keyring id `<prefix>-<name>-<unix_nanos>` from the clock.
pub fn mint_secret_id_as(prefix: &str, name: &str) -> (id: String)
    ensures
        exists|n: nat| id@ == secret_id(prefix@, name@, n),
{
    secret_id_at(prefix, name, unix_nanos())
}

/// A copy of an optional string.
pub fn copy_opt(o: &Option<String>) -> (r: Option<String>)
    ensures
        r == *o,
{
    match o {
        Some(s) => Some(s.clone()),
        None => None,
    }
}

/// The keyring consequence of a save.
#[derive(Clone, Debug, PartialEq, Eq)]
pub enum SecretPlan {
    /// The new record stores no secret; delete the old id if one existed.
    Clear { delete_old: Option<String> },
    /// Keep the existing `secret_ref` untouched.
    Keep(String),
    /// Put the newly entered secret under a freshly minted id; delete the old id (if
    /// any) after a successful write.
    Mint { delete_old: Option<String> },
}

/// The result of staging a [`SecretPlan`] against the keyring, ready for the store
/// write.
#[derive(Debug)]
pub struct StagedSecret {
    /// The `secret_ref` the written record should carry.
    pub secret_ref: Option<String>,
    /// A superseded keyring id to delete only *after* the store write succeeds, so a
    /// failed write never loses the old secret.
    pub delete_after_write: Option<String>,
    /// Whether a fresh id was minted (and must be rolled back if the write fails).
    pub minted: bool,
}

/// A write the keyring must take before the record is written: `secret` stored under
/// `id`.
#[derive(Clone, Debug, PartialEq, Eq)]
pub struct KeyringPut {
    pub id: String,
    pub secret: String,
}

/// A staged [`SecretPlan`]: the secret as the record will reference it, and the
/// keyring write it awaits (only a `Mint` has one).
#[derive(Debug)]
pub struct Staging {
    pub staged: StagedSecret,
    pub put: Option<KeyringPut>,
}

/// What staging `plan` yields: `Clear` and `Keep` pass through and ask nothing of the
/// keyring; `Mint` without a secret is an internal error; `Mint` with one carries a
/// fresh `<prefix>-<name>-<nanos>` id, defers the old id's deletion, and asks the
/// keyring to store the typed secret under that id.
pub open spec fn staged_as(
    plan: SecretPlan,
    prefix: Seq<char>,
    name: Seq<char>,
    secret: Option<Seq<char>>,
    r: Result<Staging, String>,
) -> bool {
    match plan {
        SecretPlan::Clear { delete_old } => r matches Ok(st) && st.put is None
            && st.staged.secret_ref is None && st.staged.delete_after_write == delete_old
            && !st.staged.minted,
        SecretPlan::Keep(id) => r matches Ok(st) && st.put is None && st.staged.secret_ref == Some(
            id,
        ) && st.staged.delete_after_write is None && !st.staged.minted,
        SecretPlan::Mint { delete_old } => match secret {
            None => r matches Err(e) && e@ == "internal: mint plan without a secret"@,
            Some(sec) => r matches Ok(st) && st.staged.minted && st.staged.delete_after_write
                == delete_old && (st.staged.secret_ref matches Some(id) && (exists|n: nat|
                id@ == secret_id(prefix, name, n)) && (st.put matches Some(p) && p.id == id
                && p.secret@ == sec)),
        },
    }
}

/// The view of an optional borrowed string.
pub open spec fn opt_view(s: Option<&str>) -> Option<Seq<char>> {
    match s {
        Some(x) => Some(x@),
        None => None,
    }
}

/// Stage `plan`: mint a fresh id for `Mint` (which requires a typed secret) and name
/// the keyring write it needs; `Keep` and `Clear` pass through. Old-id deletion is
/// deferred to after the record's write via `delete_after_write`.
pub fn stage_plan(plan: &SecretPlan, prefix: &str, name: &str, secret: Option<&str>) -> (r: Result<
    Staging,
    String,
>)
    ensures
        staged_as(*plan, prefix@, name@, opt_view(secret), r),
{
    match plan {
        SecretPlan::Clear { delete_old } => Ok(
            Staging {
                staged: StagedSecret {
                    secret_ref: None,
                    delete_after_write: copy_opt(delete_old),
                    minted: false,
                },
                put: None,
            },
        ),
        SecretPlan::Keep(id) => Ok(
            Staging {
                staged: StagedSecret {
                    secret_ref: Some(id.clone()),
                    delete_after_write: None,
                    minted: false,
                },
                put: None,
            },
        ),
        SecretPlan::Mint { delete_old } => {
            let secret = match secret {
                Some(s) => s,
                None => {
                    return Err(String::from_str("internal: mint plan without a secret"));
                },
            };
            let id = mint_secret_id_as(prefix, name);
            let put = KeyringPut { id: id.clone(), secret: String::from_str(secret) };
            Ok(
                Staging {
                    staged: StagedSecret {
                        secret_ref: Some(id),
                        delete_after_write: copy_opt(delete_old),
                        minted: true,
                    },
                    put: Some(put),
                },
            )
        },
    }
}

/// The keyring answered the staging's write (`None`: none was asked): the staged
/// secret stands exactly when no write was needed or the write succeeded; a failed
/// write is reported with the keyring's message.
pub fn after_put(staging: Staging, put: Option<Result<(), String>>) -> (r: Result<StagedSecret, String>)
    ensures
        match put {
            Some(Err(e)) => r == Err::<StagedSecret, String>(e),
            _ => r == Ok::<StagedSecret, String>(staging.staged),
        },
{
    match put {
        Some(Err(e)) => Err(e),
        _ => Ok(staging.staged),
    }
}

} // verus!
