use std::cell::RefCell;

use sid::db_conn_form::{
    after_put, StagedSecret,
    add_guard, build_fields, collect_values, entered_secret, has_password_field, lookup_value,
    mint_secret_id, plan_secret, preselect, stage_secret, submission, switches_kind,
    validate_name, validate_port_fields, FieldState, FormMode, SaveTarget, SecretPlan,
};
use sid::model::{ConnField, ConnFieldKind, DbConnection, DbKind, DefaultScope, Scope};
/// The keyring port these tests drive the library's keyring steps against.
trait Keyring {
    fn put(&self, id: &str, secret: &[u8]) -> Result<(), String>;
    fn get(&self, id: &str) -> Result<Option<Vec<u8>>, String>;
    fn delete(&self, id: &str) -> Result<(), String>;
}

/// Stage `plan` as a save does: the staging's keyring write (if any) goes to `keyring`,
/// and its answer to `after_put`.
fn stage<K: Keyring>(keyring: &K, plan: &SecretPlan, name: &str, secret: Option<&str>) -> Result<StagedSecret, String> {
    let staging = stage_secret(plan, name, secret)?;
    let answer = staging.put.as_ref().map(|p| keyring.put(&p.id, p.secret.as_bytes()));
    after_put(staging, answer)
}

#[derive(Default)]
struct FakeKeyring {
    entries: RefCell<Vec<(String, Vec<u8>)>>,
}

impl FakeKeyring {
    fn list_ids(&self) -> Vec<String> {
        self.entries.borrow().iter().map(|(k, _)| k.clone()).collect()
    }
}

impl Keyring for FakeKeyring {
    fn put(&self, id: &str, secret: &[u8]) -> Result<(), String> {
        let mut e = self.entries.borrow_mut();
        e.retain(|(k, _)| k != id);
        e.push((id.to_string(), secret.to_vec()));
        Ok(())
    }

    fn get(&self, id: &str) -> Result<Option<Vec<u8>>, String> {
        Ok(self.entries.borrow().iter().find(|(k, _)| k == id).map(|(_, v)| v.clone()))
    }

    fn delete(&self, id: &str) -> Result<(), String> {
        self.entries.borrow_mut().retain(|(k, _)| k != id);
        Ok(())
    }
}

fn conn(id: &str, secret_ref: Option<&str>) -> DbConnection {
    DbConnection {
        id: id.into(),
        dsn: "d".into(),
        secret_ref: secret_ref.map(Into::into),
        kind: DbKind::Postgres,
        name: id.into(),
        folder: None,
    }
}

fn port_field(key: &str) -> ConnField {
    ConnField::new(key, key, ConnFieldKind::Port)
}

fn values(pairs: &[(&str, &str)]) -> Vec<(String, String)> {
    pairs.iter().map(|(k, v)| (k.to_string(), v.to_string())).collect()
}

#[test]
fn validate_name_trims_and_accepts() {
    assert_eq!(validate_name("  prod db  ").unwrap(), "prod db");
}

#[test]
fn validate_name_rejects_empty() {
    assert!(validate_name("   ").is_err());
    assert_eq!(validate_name("").unwrap_err(), "name must not be empty");
}

#[test]
fn validate_port_fields_accepts_in_range() {
    let fields = vec![port_field("port")];
    assert!(validate_port_fields(&fields, &values(&[("port", "5432")])).is_ok());
}

#[test]
fn validate_port_fields_rejects_out_of_range() {
    let fields = vec![port_field("port")];
    for bad in ["0", "65536", "-1", "abc"] {
        assert!(
            validate_port_fields(&fields, &values(&[("port", bad)])).is_err(),
            "{bad} should be rejected"
        );
    }
}

#[test]
fn validate_port_fields_ignores_missing_or_empty() {
    let fields = vec![port_field("port")];
    assert!(validate_port_fields(&fields, &Vec::new()).is_ok());
    assert!(validate_port_fields(&fields, &values(&[("port", "")])).is_ok());
}

#[test]
fn validate_port_fields_ignores_non_port_kinds() {
    let fields = vec![ConnField::new("host", "Host", ConnFieldKind::Text)];
    assert!(validate_port_fields(&fields, &values(&[("host", "not-a-number")])).is_ok());
}

#[test]
fn validate_port_fields_names_the_field_and_trims() {
    let fields = vec![ConnField::new("port", "Port", ConnFieldKind::Port)];
    assert_eq!(
        validate_port_fields(&fields, &values(&[("port", "70000")])).unwrap_err(),
        "Port must be a number in 1-65535"
    );
    assert!(validate_port_fields(&fields, &values(&[("port", " 5432 ")])).is_ok());
    // the last value stored under a key is the one that counts
    assert!(validate_port_fields(&fields, &values(&[("port", "0"), ("port", "22")])).is_ok());
}

#[test]
fn add_guard_refuses_add_into_a_layer_that_holds_the_id() {
    assert!(add_guard(false, true, "⌂ global").is_err());
    assert_eq!(
        add_guard(false, true, "⌂ global").unwrap_err(),
        "a connection with this name exists in ⌂ global — edit it instead"
    );
}

#[test]
fn add_guard_allows_add_into_a_free_layer() {
    assert!(add_guard(false, false, "⌂ global").is_ok());
}

#[test]
fn add_guard_always_allows_edit() {
    assert!(add_guard(true, true, "⌂ global").is_ok());
}

#[test]
fn plan_no_password_field_clears_any_old_secret() {
    let old = conn("a", Some("db-a-1"));
    assert_eq!(
        plan_secret(Some(&old), false, false),
        SecretPlan::Clear { delete_old: Some("db-a-1".into()) }
    );
}

#[test]
fn plan_add_with_password_field_and_entered_secret_mints() {
    assert_eq!(plan_secret(None, true, true), SecretPlan::Mint { delete_old: None });
}

#[test]
fn db_conn_form_plan_edit_replacing_secret_mints_and_deletes_old() {
    let old = conn("a", Some("db-a-1"));
    assert_eq!(
        plan_secret(Some(&old), true, true),
        SecretPlan::Mint { delete_old: Some("db-a-1".into()) }
    );
}

#[test]
fn plan_edit_untouched_password_field_keeps_the_old_secret() {
    let old = conn("a", Some("db-a-1"));
    assert_eq!(plan_secret(Some(&old), true, false), SecretPlan::Keep("db-a-1".into()));
}

#[test]
fn plan_add_with_password_field_but_nothing_entered_clears() {
    assert_eq!(plan_secret(None, true, false), SecretPlan::Clear { delete_old: None });
}

#[test]
fn db_conn_form_mint_ids_are_unique_across_calls() {
    assert_ne!(mint_secret_id("db"), mint_secret_id("db"));
}

#[test]
fn db_conn_form_stage_mint_puts_bytes_under_fresh_id() {
    let secrets = FakeKeyring::default();
    let plan = SecretPlan::Mint { delete_old: Some("db-a-old".into()) };
    let staged = stage(&secrets, &plan, "a", Some("hunter2")).unwrap();
    let id = staged.secret_ref.expect("minted ref");
    assert!(id.starts_with("db-a-"), "{id}");
    assert!(staged.minted);
    assert_eq!(staged.delete_after_write.as_deref(), Some("db-a-old"));
    assert_eq!(secrets.get(&id).unwrap().as_deref(), Some(&b"hunter2"[..]));
}

#[test]
fn db_conn_form_stage_mint_without_secret_is_an_internal_error() {
    let secrets = FakeKeyring::default();
    let plan = SecretPlan::Mint { delete_old: None };
    assert!(stage(&secrets, &plan, "a", None).is_err());
    assert!(secrets.list_ids().is_empty());
}

#[test]
fn db_conn_form_stage_keep_touches_nothing() {
    let secrets = FakeKeyring::default();
    secrets.put("db-a-1", b"old").unwrap();
    let staged = stage(&secrets, &SecretPlan::Keep("db-a-1".into()), "a", None).unwrap();
    assert_eq!(staged.secret_ref.as_deref(), Some("db-a-1"));
    assert_eq!(staged.delete_after_write, None);
    assert!(!staged.minted);
    assert_eq!(secrets.get("db-a-1").unwrap().as_deref(), Some(&b"old"[..]));
}

#[test]
fn db_conn_form_stage_clear_defers_the_delete_to_after_the_write() {
    let secrets = FakeKeyring::default();
    secrets.put("db-a-1", b"old").unwrap();
    let plan = SecretPlan::Clear { delete_old: Some("db-a-1".into()) };
    let staged = stage(&secrets, &plan, "a", None).unwrap();
    assert_eq!(staged.secret_ref, None);
    assert_eq!(staged.delete_after_write.as_deref(), Some("db-a-1"));
    assert!(secrets.get("db-a-1").unwrap().is_some());
}

#[test]
fn db_preselect_follows_the_default_scope() {
    assert_eq!(preselect(DefaultScope::Ask, true), None);
    assert_eq!(preselect(DefaultScope::Global, false), Some(SaveTarget::Global));
    assert_eq!(preselect(DefaultScope::Workspace, false), None);
}

fn pg_fields() -> Vec<ConnField> {
    let mut sslmode = ConnField::new(
        "sslmode",
        "SSL mode",
        ConnFieldKind::Choice { options: vec!["disable".into(), "prefer".into(), "require".into()] },
    );
    sslmode.default = Some("prefer".into());
    let mut port = ConnField::new("port", "Port", ConnFieldKind::Port);
    port.default = Some("5432".into());
    vec![
        ConnField::new("host", "Host", ConnFieldKind::Text),
        port,
        ConnField::new("password", "Password", ConnFieldKind::Password),
        sslmode,
        ConnField::new("readonly", "Read only", ConnFieldKind::Bool),
    ]
}

#[test]
fn fields_open_from_the_prefill_then_the_default_and_never_show_a_password() {
    let prefill = values(&[("host", "db.local"), ("password", "leaked"), ("sslmode", "require"), ("readonly", "true")]);
    let built = build_fields(&pg_fields(), Some(&prefill));
    assert_eq!(built[0].1, FieldState::Text("db.local".into()));
    assert_eq!(built[1].1, FieldState::Text("5432".into()));
    assert_eq!(built[2].1, FieldState::Text(String::new()));
    assert_eq!(
        built[3].1,
        FieldState::Choice { options: vec!["disable".into(), "prefer".into(), "require".into()], selected: 2 }
    );
    assert_eq!(
        built[4].1,
        FieldState::Choice { options: vec!["false".into(), "true".into()], selected: 1 }
    );
    let fresh = build_fields(&pg_fields(), None);
    assert_eq!(fresh[0].1, FieldState::Text(String::new()));
    assert!(matches!(fresh[3].1, FieldState::Choice { selected: 1, .. }));
    assert!(matches!(fresh[4].1, FieldState::Choice { selected: 0, .. }));
}

#[test]
fn collected_values_follow_the_widgets_and_the_password_is_found() {
    let mut built = build_fields(&pg_fields(), None);
    built[2].1 = FieldState::Text("s3cret".into());
    let v = collect_values(&built);
    assert_eq!(lookup_value(&v, "port"), Some("5432".to_string()));
    assert_eq!(lookup_value(&v, "sslmode"), Some("prefer".to_string()));
    assert_eq!(lookup_value(&v, "readonly"), Some("false".to_string()));
    assert_eq!(lookup_value(&v, "nope"), None);
    assert_eq!(entered_secret(&built), Some("s3cret".to_string()));
    assert!(has_password_field(&pg_fields()));
    let none = build_fields(&pg_fields(), None);
    assert_eq!(entered_secret(&none), None);
}

#[test]
fn the_engine_switches_only_in_add_mode() {
    assert!(switches_kind(&FormMode::Add, DbKind::Postgres, DbKind::Sqlite));
    assert!(!switches_kind(&FormMode::Add, DbKind::Postgres, DbKind::Postgres));
    let edit = FormMode::Edit { original: conn("a", None), origin: Scope::Global };
    assert!(!switches_kind(&edit, DbKind::Postgres, DbKind::Sqlite));
}

#[test]
fn a_submission_reports_its_first_problem_in_order() {
    let built = build_fields(&pg_fields(), None);
    let ok = Some(Ok("postgres://db".to_string()));
    assert_eq!(
        submission(&FormMode::Add, " ", DbKind::Postgres, &built, ok.clone(), Some(SaveTarget::Global), None).unwrap_err(),
        "name must not be empty"
    );
    assert_eq!(
        submission(&FormMode::Add, "prod", DbKind::Postgres, &built, None, Some(SaveTarget::Global), None).unwrap_err(),
        "internal: no descriptor for this engine"
    );
    let mut bad_port = build_fields(&pg_fields(), None);
    bad_port[1].1 = FieldState::Text("99999".into());
    assert_eq!(
        submission(&FormMode::Add, "prod", DbKind::Postgres, &bad_port, ok.clone(), Some(SaveTarget::Global), None).unwrap_err(),
        "Port must be a number in 1-65535"
    );
    assert_eq!(
        submission(&FormMode::Add, "prod", DbKind::Postgres, &built, Some(Err("host is required".into())), Some(SaveTarget::Global), None).unwrap_err(),
        "host is required"
    );
    assert_eq!(
        submission(&FormMode::Add, "prod", DbKind::Postgres, &built, ok.clone(), Some(SaveTarget::Workspace), None).unwrap_err(),
        "choose where to save: workspace or global"
    );
}

#[test]
fn a_submission_carries_the_record_and_the_typed_password() {
    let mut built = build_fields(&pg_fields(), None);
    built[2].1 = FieldState::Text("pw".into());
    let ws = Scope::Workspace("w1".into());
    let sub = submission(
        &FormMode::Add,
        "  prod  ",
        DbKind::Postgres,
        &built,
        Some(Ok("postgres://db".into())),
        Some(SaveTarget::Workspace),
        Some(&ws),
    )
    .unwrap();
    assert_eq!(sub.connection.id, "prod");
    assert_eq!(sub.connection.name, "prod");
    assert_eq!(sub.connection.dsn, "postgres://db");
    assert_eq!(sub.connection.secret_ref, None);
    assert_eq!(sub.target, ws);
    assert_eq!(sub.old, None);
    assert_eq!(sub.secret.as_deref(), Some("pw"));

    let mut original = conn("orig-id", Some("db-x-1"));
    original.folder = Some("team".into());
    let edit = FormMode::Edit { original: original.clone(), origin: Scope::Global };
    let sub = submission(&edit, "renamed", DbKind::Postgres, &built, Some(Ok("d2".into())), None, None).unwrap();
    assert_eq!(sub.connection.id, "orig-id");
    assert_eq!(sub.connection.name, "renamed");
    assert_eq!(sub.connection.folder.as_deref(), Some("team"));
    assert_eq!(sub.target, Scope::Global);
    assert_eq!(sub.old, Some(original));
}

#[test]
fn staging_names_the_keyring_write_only_for_a_mint() {
    let keep = stage_secret(&SecretPlan::Keep("db-a-1".into()), "a", Some("pw")).unwrap();
    assert_eq!(keep.put, None);
    let clear = stage_secret(&SecretPlan::Clear { delete_old: Some("db-a-1".into()) }, "a", None).unwrap();
    assert_eq!(clear.put, None);
    let mint = stage_secret(&SecretPlan::Mint { delete_old: None }, "a", Some("hunter2")).unwrap();
    let put = mint.put.clone().expect("a mint writes the keyring");
    assert_eq!(Some(put.id.clone()), mint.staged.secret_ref.clone());
    assert_eq!(put.secret, "hunter2");
    let failed = after_put(mint, Some(Err("keyring locked".to_string())));
    assert_eq!(failed.unwrap_err(), "keyring locked");
}

#[test]
fn the_port_check_reads_the_values_as_a_map_where_the_last_pair_wins() {
    let fields = vec![port_field("port")];
    let map_like = values(&[("port", "5432")]);
    let with_stale = values(&[("port", "abc"), ("host", "h"), ("port", "5432")]);
    assert_eq!(validate_port_fields(&fields, &map_like), validate_port_fields(&fields, &with_stale));
    assert!(validate_port_fields(&fields, &with_stale).is_ok());
    assert_eq!(lookup_value(&with_stale, "port"), Some("5432".to_string()));
    assert!(validate_port_fields(&fields, &values(&[("port", "5432"), ("port", "0")])).is_err());
}
