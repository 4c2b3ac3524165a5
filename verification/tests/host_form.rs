use std::cell::RefCell;

use sid::host_form::{
    after_put, StagedSecret,
    add_guard, auth_at, auth_index, auth_segment, mint_secret_id, plan_secret, preselect,
    stage_secret, validate, workspace_option_note, AuthChoice, FormInput, SaveTarget, SecretPlan,
    AUTH_SEGMENT_COUNT,
};
use sid::model::{AuthMethod, DefaultScope, Host};
/// The keyring port these tests drive the library's keyring steps against.
trait Keyring {
    fn put(&self, id: &str, secret: &[u8]) -> Result<(), String>;
    fn get(&self, id: &str) -> Result<Option<Vec<u8>>, String>;
    fn delete(&self, id: &str) -> Result<(), String>;
}

/// Stage `plan` as a save does: the staging's keyring write (if any) goes to `keyring`,
/// and its answer to `after_put`.
fn stage<K: Keyring>(keyring: &K, plan: &SecretPlan, name: &str, secret: Option<&str>) -> Result<StagedSecret, String> {
    let staging = stage_secret(plan, name, secret)?;
    let answer = staging.put.as_ref().map(|p| keyring.put(&p.id, p.secret.as_bytes()));
    after_put(staging, answer)
}

/// An in-memory keyring.
#[derive(Default)]
struct FakeKeyring {
    entries: RefCell<Vec<(String, Vec<u8>)>>,
}

impl FakeKeyring {
    fn list_ids(&self) -> Vec<String> {
        self.entries.borrow().iter().map(|(k, _)| k.clone()).collect()
    }
}

impl Keyring for FakeKeyring {
    fn put(&self, id: &str, secret: &[u8]) -> Result<(), String> {
        let mut e = self.entries.borrow_mut();
        e.retain(|(k, _)| k != id);
        e.push((id.to_string(), secret.to_vec()));
        Ok(())
    }

    fn get(&self, id: &str) -> Result<Option<Vec<u8>>, String> {
        Ok(self
            .entries
            .borrow()
            .iter()
            .find(|(k, _)| k == id)
            .map(|(_, v)| v.clone()))
    }

    fn delete(&self, id: &str) -> Result<(), String> {
        self.entries.borrow_mut().retain(|(k, _)| k != id);
        Ok(())
    }
}

fn input(alias: &str, user: &str, host: &str, port: &str) -> FormInput {
    FormInput {
        alias: alias.into(),
        user: user.into(),
        host: host.into(),
        port: port.into(),
        auth: AuthChoice::Agent,
        key_path: String::new(),
    }
}

fn host(alias: &str, secret_ref: Option<&str>, auth: AuthMethod) -> Host {
    Host {
        alias: alias.into(),
        user: "u".into(),
        host: "h".into(),
        port: 22,
        secret_ref: secret_ref.map(Into::into),
        auth,
        folder: None,
    }
}

#[test]
fn a_focused_workspace_leaves_the_option_alone() {
    assert_eq!(workspace_option_note(true), None);
}

#[test]
fn no_focused_workspace_explains_why_its_disabled() {
    assert_eq!(workspace_option_note(false), Some("— no workspace focused"));
}

#[test]
fn validate_accepts_and_trims_agent_host() {
    let h = validate(&input("  web ", " deploy ", " 10.0.0.1 ", " 22 ")).unwrap();
    assert_eq!(h.alias, "web");
    assert_eq!(h.user, "deploy");
    assert_eq!(h.host, "10.0.0.1");
    assert_eq!(h.port, 22);
    assert_eq!(h.auth, AuthMethod::Agent);
    assert_eq!(h.secret_ref, None);
}

#[test]
fn validate_rejects_empty_alias() {
    let err = validate(&input("  ", "u", "h", "22")).unwrap_err();
    assert!(err.contains("alias"), "{err}");
}

#[test]
fn validate_rejects_empty_user() {
    let err = validate(&input("a", "", "h", "22")).unwrap_err();
    assert!(err.contains("user"), "{err}");
}

#[test]
fn validate_rejects_empty_host() {
    let err = validate(&input("a", "u", " ", "22")).unwrap_err();
    assert!(err.contains("host"), "{err}");
}

#[test]
fn validate_port_bounds() {
    assert_eq!(validate(&input("a", "u", "h", "1")).unwrap().port, 1);
    assert_eq!(validate(&input("a", "u", "h", "65535")).unwrap().port, 65535);
    for bad in ["0", "65536", "-1", "abc", "", "2.2"] {
        let err = validate(&input("a", "u", "h", bad)).unwrap_err();
        assert!(err.contains("port"), "{bad} → {err}");
    }
}

#[test]
fn validate_key_auth_requires_key_path() {
    let mut i = input("a", "u", "h", "22");
    i.auth = AuthChoice::Key;
    let err = validate(&i).unwrap_err();
    assert!(err.contains("key path"), "{err}");

    i.key_path = " ~/.ssh/id_ed25519 ".into();
    let h = validate(&i).unwrap();
    assert_eq!(h.auth, AuthMethod::Key { path: "~/.ssh/id_ed25519".into() });
}

#[test]
fn validate_password_auth_maps_through() {
    let mut i = input("a", "u", "h", "22");
    i.auth = AuthChoice::Password;
    assert_eq!(validate(&i).unwrap().auth, AuthMethod::Password);
}

#[test]
fn validate_error_messages_are_exact() {
    assert_eq!(validate(&input("", "u", "h", "22")).unwrap_err(), "alias must not be empty");
    assert_eq!(validate(&input("a", "u", "h", "0")).unwrap_err(), "port must be a number in 1–65535");
    let mut i = input("a", "u", "h", "22");
    i.auth = AuthChoice::Key;
    assert_eq!(validate(&i).unwrap_err(), "key path must not be empty for key auth");
}

#[test]
fn every_auth_choice_round_trips_through_its_segment() {
    for ix in 0..AUTH_SEGMENT_COUNT {
        let (_, choice) = auth_segment(ix).unwrap();
        assert_eq!(auth_index(choice), ix, "{choice:?}");
        assert_eq!(auth_at(ix), choice, "index {ix}");
    }
}

#[test]
fn the_segments_are_labelled_in_render_order() {
    let labels: Vec<&str> = (0..AUTH_SEGMENT_COUNT).map(|ix| auth_segment(ix).unwrap().0).collect();
    assert_eq!(labels, ["agent", "key", "password"]);
}

#[test]
fn an_out_of_range_segment_falls_back_to_the_secretless_method() {
    assert_eq!(auth_at(AUTH_SEGMENT_COUNT), AuthChoice::Agent);
    assert_eq!(auth_at(usize::MAX), AuthChoice::Agent);
}

#[test]
fn add_guard_rejects_add_into_occupied_layer_with_named_layer() {
    let err = add_guard(false, true, "global").unwrap_err();
    assert_eq!(err, "alias exists in global — edit it instead");
}

#[test]
fn add_guard_allows_add_into_free_layer() {
    assert!(add_guard(false, false, "global").is_ok());
}

#[test]
fn add_guard_allows_edit_upsert() {
    assert!(add_guard(true, true, "global").is_ok());
}

#[test]
fn preselect_ask_selects_nothing() {
    assert_eq!(preselect(DefaultScope::Ask, true), None);
    assert_eq!(preselect(DefaultScope::Ask, false), None);
}

#[test]
fn preselect_global_always_selects_global() {
    assert_eq!(preselect(DefaultScope::Global, false), Some(SaveTarget::Global));
    assert_eq!(preselect(DefaultScope::Global, true), Some(SaveTarget::Global));
}

#[test]
fn preselect_workspace_needs_an_active_workspace() {
    assert_eq!(preselect(DefaultScope::Workspace, true), Some(SaveTarget::Workspace));
    assert_eq!(preselect(DefaultScope::Workspace, false), None);
}

#[test]
fn plan_add_agent_stores_nothing() {
    assert_eq!(plan_secret(None, &AuthMethod::Agent, false), SecretPlan::Clear { delete_old: None });
}

#[test]
fn plan_add_password_entered_mints() {
    assert_eq!(plan_secret(None, &AuthMethod::Password, true), SecretPlan::Mint { delete_old: None });
}

#[test]
fn plan_add_password_not_entered_stores_nothing() {
    assert_eq!(plan_secret(None, &AuthMethod::Password, false), SecretPlan::Clear { delete_old: None });
}

#[test]
fn plan_edit_away_from_secret_deletes_old() {
    let old = host("a", Some("ssh-a-1"), AuthMethod::Password);
    assert_eq!(
        plan_secret(Some(&old), &AuthMethod::Agent, false),
        SecretPlan::Clear { delete_old: Some("ssh-a-1".into()) }
    );
}

#[test]
fn plan_edit_same_slot_empty_field_keeps_old() {
    let old = host("a", Some("ssh-a-1"), AuthMethod::Password);
    assert_eq!(
        plan_secret(Some(&old), &AuthMethod::Password, false),
        SecretPlan::Keep("ssh-a-1".into())
    );
    let old_key = host("a", Some("ssh-a-2"), AuthMethod::Key { path: "p".into() });
    assert_eq!(
        plan_secret(Some(&old_key), &AuthMethod::Key { path: "q".into() }, false),
        SecretPlan::Keep("ssh-a-2".into())
    );
}

#[test]
fn host_form_plan_edit_replacing_secret_mints_and_deletes_old() {
    let old = host("a", Some("ssh-a-1"), AuthMethod::Password);
    assert_eq!(
        plan_secret(Some(&old), &AuthMethod::Password, true),
        SecretPlan::Mint { delete_old: Some("ssh-a-1".into()) }
    );
}

#[test]
fn plan_edit_slot_change_never_reuses_the_old_secret() {
    let old = host("a", Some("ssh-a-1"), AuthMethod::Password);
    assert_eq!(
        plan_secret(Some(&old), &AuthMethod::Key { path: "p".into() }, false),
        SecretPlan::Clear { delete_old: Some("ssh-a-1".into()) }
    );
}

#[test]
fn plan_edit_without_old_ref_same_slot_stores_nothing() {
    let old = host("a", None, AuthMethod::Password);
    assert_eq!(
        plan_secret(Some(&old), &AuthMethod::Password, false),
        SecretPlan::Clear { delete_old: None }
    );
}

#[test]
fn mint_id_carries_alias_prefix_and_nanos() {
    let id = mint_secret_id("web");
    let suffix = id.strip_prefix("ssh-web-").expect("prefix");
    assert!(suffix.parse::<u128>().is_ok(), "{id}");
}

#[test]
fn host_form_mint_ids_are_unique_across_calls() {
    assert_ne!(mint_secret_id("web"), mint_secret_id("web"));
}

#[test]
fn host_form_stage_mint_puts_bytes_under_fresh_id() {
    let secrets = FakeKeyring::default();
    let plan = SecretPlan::Mint { delete_old: Some("ssh-a-old".into()) };
    let staged = stage(&secrets, &plan, "a", Some("hunter2")).unwrap();
    let id = staged.secret_ref.expect("minted ref");
    assert!(id.starts_with("ssh-a-"), "{id}");
    assert!(staged.minted);
    assert_eq!(staged.delete_after_write.as_deref(), Some("ssh-a-old"));
    assert_eq!(secrets.get(&id).unwrap().as_deref(), Some(&b"hunter2"[..]));
}

#[test]
fn host_form_stage_mint_without_secret_is_an_internal_error() {
    let secrets = FakeKeyring::default();
    let plan = SecretPlan::Mint { delete_old: None };
    assert_eq!(
        stage(&secrets, &plan, "a", None).unwrap_err(),
        "internal: mint plan without a secret"
    );
    assert!(secrets.list_ids().is_empty());
}

#[test]
fn host_form_stage_keep_touches_nothing() {
    let secrets = FakeKeyring::default();
    secrets.put("ssh-a-1", b"old").unwrap();
    let staged = stage(&secrets, &SecretPlan::Keep("ssh-a-1".into()), "a", None).unwrap();
    assert_eq!(staged.secret_ref.as_deref(), Some("ssh-a-1"));
    assert_eq!(staged.delete_after_write, None);
    assert!(!staged.minted);
    assert_eq!(secrets.get("ssh-a-1").unwrap().as_deref(), Some(&b"old"[..]));
}

#[test]
fn host_form_stage_clear_defers_the_delete_to_after_the_write() {
    let secrets = FakeKeyring::default();
    secrets.put("ssh-a-1", b"old").unwrap();
    let plan = SecretPlan::Clear { delete_old: Some("ssh-a-1".into()) };
    let staged = stage(&secrets, &plan, "a", None).unwrap();
    assert_eq!(staged.secret_ref, None);
    assert_eq!(staged.delete_after_write.as_deref(), Some("ssh-a-1"));
    assert!(secrets.get("ssh-a-1").unwrap().is_some());
}

/// A keyring whose writes fail.
struct BrokenKeyring;

impl Keyring for BrokenKeyring {
    fn put(&self, _id: &str, _secret: &[u8]) -> Result<(), String> {
        Err("keyring locked".to_string())
    }

    fn get(&self, _id: &str) -> Result<Option<Vec<u8>>, String> {
        Err("keyring locked".to_string())
    }

    fn delete(&self, _id: &str) -> Result<(), String> {
        Err("keyring locked".to_string())
    }
}

#[test]
fn stage_mint_reports_the_keyring_failure() {
    let plan = SecretPlan::Mint { delete_old: None };
    assert_eq!(
        stage(&BrokenKeyring, &plan, "a", Some("pw")).unwrap_err(),
        "keyring locked"
    );
}
