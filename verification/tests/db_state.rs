use sid::db_state::connection_row_texts;
use std::cell::RefCell;

use sid::db_conn_form::Submission;
use sid::db_state::{
    can_demote, can_promote, cleanup_warning, delete_warning, export_notice, finish_db_save,
    prepare_db_save, secret_to_delete,
    select_star, workspace_chip_label, DbTabState, ExplainSupport, QueryStart, QueryStatus,
    RenameCommit, ResultsPane, SchemaStart,
};
use sid::db_tab::ConnectionState;
use sid::db_tab::{ExportFormat, HISTORY_CAP};
use sid::model::{
    Attributed, ColumnType, DbColumn, DbConnection, DbKind, QueryPage, Row, SchemaInfo, Scope,
};
use sid::secrets::{after_put, StagedSecret};

#[derive(Default)]
struct Keyring {
    entries: RefCell<Vec<(String, Vec<u8>)>>,
    deletes: RefCell<Vec<String>>,
}

impl Keyring {
    fn put(&self, id: &str, secret: &[u8]) -> Result<(), String> {
        self.entries.borrow_mut().push((id.to_string(), secret.to_vec()));
        Ok(())
    }

    fn get(&self, id: &str) -> Result<Option<Vec<u8>>, String> {
        Ok(self.entries.borrow().iter().find(|(k, _)| k == id).map(|(_, v)| v.clone()))
    }

    fn delete(&self, id: &str) -> Result<(), String> {
        self.deletes.borrow_mut().push(id.to_string());
        self.entries.borrow_mut().retain(|(k, _)| k != id);
        Ok(())
    }
}

/// Press Run as the tab does: a `Lookup` is answered from `keyring` and resumed.
fn run(s: &mut DbTabState, keyring: &Keyring, sql: &str) -> QueryStart {
    match s.begin_run(sql) {
        QueryStart::Lookup { secret_ref } => s.resume_run(sql, keyring.get(&secret_ref)),
        other => other,
    }
}

/// Press Explain as the tab does.
fn explain(s: &mut DbTabState, keyring: &Keyring, sql: &str, support: &ExplainSupport) -> QueryStart {
    match s.begin_explain(sql, support) {
        QueryStart::Lookup { secret_ref } => s.resume_explain(sql, support, keyring.get(&secret_ref)),
        other => other,
    }
}

/// Refresh the schema as the tab does.
fn schema(s: &mut DbTabState, keyring: &Keyring) -> SchemaStart {
    match s.begin_schema_refresh() {
        SchemaStart::Lookup { secret_ref } => s.resume_schema_refresh(keyring.get(&secret_ref)),
        other => other,
    }
}

/// The first half of a save as the tab runs it: the staging's keyring write, then its
/// answer.
fn prepare(
    keyring: &Keyring,
    sub: &Submission,
    holds: Result<bool, String>,
    label: &str,
    has_password_field: bool,
) -> Result<(DbConnection, StagedSecret), String> {
    let (record, staging) = prepare_db_save(sub, holds, label, has_password_field)?;
    let answer = staging.put.as_ref().map(|p| keyring.put(&p.id, p.secret.as_bytes()));
    let staged = after_put(staging, answer)?;
    Ok((record, staged))
}

/// The second half: the delete `secret_to_delete` names, then its answer.
fn finish(keyring: &Keyring, staged: &StagedSecret, write: Result<(), String>) -> Result<Option<String>, String> {
    let deleted = secret_to_delete(staged, write.is_ok()).map(|id| keyring.delete(&id));
    finish_db_save(write, deleted)
}

fn conn(id: &str, kind: DbKind, secret_ref: Option<&str>) -> Attributed<DbConnection> {
    Attributed {
        item: DbConnection {
            id: id.to_string(),
            dsn: "dsn".to_string(),
            secret_ref: secret_ref.map(|s| s.to_string()),
            kind,
            name: format!("{id} db"),
            folder: None,
        },
        origin: Scope::Global,
        duplicate: false,
    }
}

fn page(cursor: Option<&str>) -> QueryPage {
    QueryPage {
        columns: vec![DbColumn { name: "n".to_string(), ty: ColumnType::Integer }],
        rows: vec![Row { values: vec!["1".to_string()] }],
        next_cursor: cursor.map(|c| c.to_string()),
        duration_ms: 7,
    }
}

fn loaded() -> DbTabState {
    let mut s = DbTabState::new();
    assert_eq!(
        s.refresh(Ok(vec![conn("a", DbKind::Sqlite, None), conn("pg", DbKind::Postgres, Some("db-pg-1"))])),
        None
    );
    s
}

#[test]
fn run_is_refused_until_there_is_something_to_run() {
    let keyring = Keyring::default();
    let mut s = loaded();
    assert_eq!(run(&mut s, &keyring, "select 1"), QueryStart::Refused);
    assert_eq!(s.status, QueryStatus::Failed("select a connection first".to_string()));
    s.select_connection("gone".to_string());
    assert_eq!(run(&mut s, &keyring, "select 1"), QueryStart::Refused);
    assert_eq!(s.status, QueryStatus::Failed("selected connection no longer exists".to_string()));
    s.select_connection("a".to_string());
    assert_eq!(run(&mut s, &keyring, "   "), QueryStart::Refused);
    assert_eq!(s.status, QueryStatus::Failed("SQL is empty".to_string()));
}

#[test]
fn a_run_records_history_and_its_page_lands_only_while_current() {
    let keyring = Keyring::default();
    let mut s = loaded();
    s.select_connection("a".to_string());
    let start = run(&mut s, &keyring, "select 1");
    let QueryStart::Start { generation, id, connection, secret, reuse_client, sql } = start else {
        panic!("expected a start");
    };
    assert_eq!(id, "a");
    assert_eq!(connection.id, "a");
    assert_eq!(secret, None);
    assert!(!reuse_client);
    assert_eq!(sql, "select 1");
    assert!(s.running);
    assert_eq!(s.history, vec!["select 1".to_string()]);
    assert_eq!(run(&mut s, &keyring, "select 2"), QueryStart::Ignored);

    assert!(s.finish_run(generation, id, Ok(page(Some("c2")))));
    assert!(!s.running);
    assert_eq!(s.status, QueryStatus::Done { duration_ms: 7, has_more: true });
    assert_eq!(s.next_cursor.as_deref(), Some("c2"));
    assert_eq!(s.client_for.as_deref(), Some("a"));
    assert_eq!(s.last_page, Some(page(Some("c2"))));

    // the next page repeats the remembered statement from the cursor
    let (g2, cursor, sql) = s.begin_next_page().unwrap();
    assert_eq!((cursor.as_str(), sql.as_str()), ("c2", "select 1"));
    // switching connections makes the in-flight page stale
    assert!(s.select_connection("pg".to_string()));
    assert!(!s.finish_next_page(g2, Ok(page(None))));
    assert_eq!(s.status, QueryStatus::Idle);
    assert_eq!(s.last_page, None);
}

#[test]
fn a_dangling_postgres_secret_asks_for_the_password() {
    let keyring = Keyring::default();
    let mut s = loaded();
    s.select_connection("pg".to_string());
    match run(&mut s, &keyring, "select 1") {
        QueryStart::Prompt { label, secret_ref } => {
            assert_eq!(label, "pg db");
            assert_eq!(secret_ref, "db-pg-1");
        }
        other => panic!("expected a prompt, got {other:?}"),
    }
    assert!(!s.running);
    keyring.put("db-pg-1", b"hunter2").unwrap();
    match run(&mut s, &keyring, "select 1") {
        QueryStart::Start { secret, .. } => assert_eq!(secret.as_deref(), Some("hunter2")),
        other => panic!("expected a start, got {other:?}"),
    }
}

#[test]
fn explain_reports_a_missing_planner_and_shows_the_plan() {
    let keyring = Keyring::default();
    let mut s = loaded();
    assert_eq!(explain(&mut s, &keyring, "select 1", &ExplainSupport::NoConnection), QueryStart::Refused);
    s.select_connection("a".to_string());
    assert_eq!(explain(&mut s, &keyring, "select 1", &ExplainSupport::Unsupported(None)), QueryStart::Refused);
    assert_eq!(s.status, QueryStatus::Failed("this engine has no query planner".to_string()));
    let start = explain(&mut s, &keyring, "select 1", &ExplainSupport::Keyword("EXPLAIN QUERY PLAN".to_string()));
    let QueryStart::Start { generation, id, .. } = start else { panic!("expected a start") };
    assert!(s.history.is_empty());
    let plan = QueryPage {
        columns: vec![DbColumn { name: "a".to_string(), ty: ColumnType::Text }, DbColumn { name: "b".to_string(), ty: ColumnType::Text }],
        rows: vec![Row { values: vec!["SCAN".to_string(), "t".to_string()] }],
        next_cursor: Some("x".to_string()),
        duration_ms: 3,
    };
    assert!(s.finish_explain(generation, id, "EXPLAIN QUERY PLAN".to_string(), Ok(plan)));
    let shown = s.plan.as_ref().unwrap();
    assert_eq!(shown.lines, vec!["SCAN  t".to_string()]);
    assert_eq!(s.status, QueryStatus::Done { duration_ms: 3, has_more: false });
    assert_eq!(s.next_cursor, None);
}

#[test]
fn a_schema_fetch_for_a_connection_left_behind_never_lands() {
    let keyring = Keyring::default();
    let mut s = loaded();
    assert_eq!(schema(&mut s, &keyring), SchemaStart::Ignored);
    s.select_connection("a".to_string());
    let SchemaStart::Start { generation, id, .. } = schema(&mut s, &keyring) else {
        panic!("expected a start")
    };
    assert!(s.schema_loading);
    s.select_connection("pg".to_string());
    assert!(!s.finish_schema(generation, id, Ok(SchemaInfo { tables: Vec::new() })));
    assert_eq!(s.schema, None);
    assert!(!s.schema_loading);
}

#[test]
fn renames_and_folder_edits_commit_trimmed_values() {
    let mut s = loaded();
    assert_eq!(s.commit_rename(), RenameCommit::NotRenaming);
    s.select_connection("a".to_string());
    assert!(s.begin_rename_active());
    assert_eq!(s.renaming.as_ref().unwrap().text, "a db");
    s.renaming.as_mut().unwrap().text = "   ".to_string();
    assert_eq!(s.commit_rename(), RenameCommit::Invalid("name must not be empty".to_string()));
    assert!(s.renaming.is_some());
    s.renaming.as_mut().unwrap().text = " new ".to_string();
    assert_eq!(
        s.commit_rename(),
        RenameCommit::Write { origin: Scope::Global, id: "a".to_string(), name: "new".to_string() }
    );
    assert!(s.renaming.is_none());

    s.begin_folder_edit("a".to_string(), Scope::Global, Some("work"));
    assert_eq!(s.folder_editing.as_ref().unwrap().text, "work");
    s.begin_rename("a".to_string(), Scope::Global, "");
    assert!(s.folder_editing.is_none());
    assert_eq!(s.renaming.as_ref().unwrap().text, "a");
    s.begin_folder_edit("a".to_string(), Scope::Global, None);
    assert!(s.renaming.is_none());
    s.folder_editing.as_mut().unwrap().text = "  ".to_string();
    assert_eq!(s.commit_folder_edit(), Some((Scope::Global, "a".to_string(), None)));
}

#[test]
fn delete_takes_two_clicks_on_the_same_row() {
    let mut s = loaded();
    assert!(!s.delete_click("a".to_string(), Scope::Global));
    assert!(!s.delete_click("pg".to_string(), Scope::Global));
    assert!(s.delete_click("pg".to_string(), Scope::Global));
    assert_eq!(s.armed_delete, None);
    assert!(!s.delete_click("a".to_string(), Scope::Workspace("w".to_string())));
    s.refresh(Err("store unreadable".to_string()));
    assert_eq!(s.armed_delete, None);
    assert!(s.connections.is_empty());
}

#[test]
fn export_needs_a_page_and_names_the_file_after_the_connection() {
    let mut s = loaded();
    s.export_menu_open = true;
    assert_eq!(s.export(ExportFormat::Csv), None);
    assert!(!s.export_menu_open);
    assert_eq!(s.notice.as_deref(), Some("nothing to export — run a query first"));
    s.apply_query_page(page(None));
    assert_eq!(s.export(ExportFormat::Csv), Some(("query".to_string(), "n\r\n1\r\n".to_string())));
    s.active_id = Some("a".to_string());
    assert_eq!(s.export(ExportFormat::Csv).unwrap().0, "a db");
    s.finish_export(Ok("/tmp/a db-1.csv".to_string()));
    assert_eq!(s.notice.as_deref(), Some("✓ exported to /tmp/a db-1.csv"));
    assert_eq!(export_notice(Err("disk full".to_string())), "✗ export failed: disk full");
}

#[test]
fn history_is_capped_through_repeated_runs() {
    let keyring = Keyring::default();
    let mut s = loaded();
    s.select_connection("a".to_string());
    for i in 0..(HISTORY_CAP + 5) {
        if let QueryStart::Start { generation, id, .. } = run(&mut s, &keyring, &format!("select {i}")) {
            s.finish_run(generation, id, Err("x".to_string()));
        }
    }
    assert_eq!(s.history.len(), HISTORY_CAP);
    assert_eq!(s.history.last().unwrap(), &format!("select {}", HISTORY_CAP + 4));
}

#[test]
fn the_column_click_scaffold_comes_with_a_notice() {
    let mut s = DbTabState::new();
    let stmt = s.open_column_filter("public.users", "email");
    assert_eq!(stmt, "SELECT * FROM public.users WHERE email = ");
    assert_eq!(s.notice.as_deref(), Some("filter scaffold from diagram — complete the value and Run"));
    assert_eq!(select_star("Order Items"), "SELECT * FROM \"Order Items\"");
}

fn submission(secret: Option<&str>, old: Option<DbConnection>) -> Submission {
    Submission {
        connection: DbConnection {
            id: "prod".to_string(),
            dsn: "postgres://h".to_string(),
            secret_ref: None,
            kind: DbKind::Postgres,
            name: "prod".to_string(),
            folder: None,
        },
        target: Scope::Global,
        old,
        secret: secret.map(|s| s.to_string()),
    }
}

#[test]
fn saving_refuses_an_add_over_an_existing_id() {
    let keyring = Keyring::default();
    let err = prepare(&keyring, &submission(None, None), Ok(true), "global", true).unwrap_err();
    assert_eq!(err, "a connection with this name exists in global — edit it instead");
    assert_eq!(
        prepare(&keyring, &submission(None, None), Err("store locked".to_string()), "global", true).unwrap_err(),
        "store locked"
    );
}

#[test]
fn a_saved_edit_mints_the_new_secret_and_then_drops_the_old_one() {
    let keyring = Keyring::default();
    let mut old = submission(None, None).connection;
    old.secret_ref = Some("db-prod-1".to_string());
    let sub = submission(Some("pw2"), Some(old));
    let (record, staged) = prepare(&keyring, &sub, Ok(true), "global", true).unwrap();
    let minted = record.secret_ref.clone().unwrap();
    assert!(minted.starts_with("db-prod-"));
    assert_eq!(keyring.get(&minted).unwrap(), Some(b"pw2".to_vec()));
    assert_eq!(staged.delete_after_write.as_deref(), Some("db-prod-1"));
    assert_eq!(finish(&keyring, &staged, Ok(())), Ok(None));
    assert_eq!(keyring.deletes.borrow().as_slice(), &["db-prod-1".to_string()]);
}

#[test]
fn a_failed_write_rolls_back_the_minted_secret() {
    let keyring = Keyring::default();
    let sub = submission(Some("pw"), None);
    let (record, staged) = prepare(&keyring, &sub, Ok(false), "global", true).unwrap();
    let minted = record.secret_ref.clone().unwrap();
    assert_eq!(finish(&keyring, &staged, Err("disk full".to_string())), Err("disk full".to_string()));
    assert_eq!(keyring.get(&minted).unwrap(), None);
    assert_eq!(
        delete_warning(Err("locked".to_string())),
        Some("connection deleted, but deleting its secret failed: locked".to_string())
    );
}

#[test]
fn the_toolbar_and_rows_describe_the_selection() {
    let mut s = DbTabState::new();
    assert_eq!(s.active_label(), "no connection selected");
    assert_eq!(s.results_pane(), ResultsPane::NoConnections);
    s.refresh(Ok(vec![conn("a", DbKind::Sqlite, None)]));
    assert_eq!(s.results_pane(), ResultsPane::NoSelection);
    s.select_connection("a".to_string());
    assert_eq!(s.active_label(), "a db");
    assert_eq!(s.results_pane(), ResultsPane::NoResults);
    s.connections[0].item.name = String::new();
    assert_eq!(s.active_label(), "a");
    s.active_id = Some("gone".to_string());
    assert_eq!(s.active_label(), "gone");
    s.active_id = Some("a".to_string());
    s.schema_error = Some("boom".to_string());
    assert_eq!(s.row_state("a"), ConnectionState::Failed);
    s.running = true;
    assert_eq!(s.row_state("a"), ConnectionState::Connecting);
    assert_eq!(s.row_state("b"), ConnectionState::Offline);
    s.client_for = Some("b".to_string());
    assert_eq!(s.row_state("b"), ConnectionState::Live);
    assert_eq!(s.results_pane(), ResultsPane::Grid);
}

#[test]
fn layer_actions_and_chips_follow_the_row_s_origin() {
    let ws = Scope::Workspace("w1".to_string());
    assert!(can_promote(&ws));
    assert!(!can_promote(&Scope::Global));
    assert!(can_demote(&Scope::Global, &ws));
    assert!(!can_demote(&Scope::Global, &Scope::Global));
    assert!(!can_demote(&ws, &ws));
    let scopes = vec![(Scope::Global, "global".to_string()), (ws.clone(), "proj".to_string())];
    assert_eq!(workspace_chip_label(&ws, &scopes), Some("proj".to_string()));
    assert_eq!(workspace_chip_label(&Scope::Workspace("w9".to_string()), &scopes), Some("workspace".to_string()));
    assert_eq!(workspace_chip_label(&Scope::Global, &scopes), None);
}

#[test]
fn the_explain_button_says_why_it_is_disabled() {
    let mut s = loaded();
    assert_eq!(
        s.explain_button(&ExplainSupport::NoConnection),
        (true, "select a connection first".to_string())
    );
    assert_eq!(
        s.explain_button(&ExplainSupport::Unsupported(Some("sqlite has no planner here".to_string()))),
        (true, "sqlite has no planner here".to_string())
    );
    assert_eq!(
        s.explain_button(&ExplainSupport::Unsupported(None)),
        (true, "no query plan available".to_string())
    );
    assert_eq!(
        s.explain_button(&ExplainSupport::Keyword("EXPLAIN ANALYZE".to_string())),
        (false, "show the query plan (EXPLAIN ANALYZE)".to_string())
    );
    s.running = true;
    assert!(s.explain_button(&ExplainSupport::Keyword("EXPLAIN".to_string())).0);
}

#[test]
fn the_relationships_window_is_titled_after_the_selected_connection() {
    let mut s = loaded();
    assert_eq!(s.diagram_window_title(), None);
    s.schema = Some(SchemaInfo { tables: vec![] });
    assert_eq!(s.diagram_window_title(), Some("sid — relationships · connection".to_string()));
    s.select_connection("pg".to_string());
    s.schema = Some(SchemaInfo { tables: vec![] });
    assert_eq!(s.diagram_window_title(), Some("sid — relationships · pg db".to_string()));
    s.connections[1].item.name = String::new();
    assert_eq!(s.diagram_window_title(), Some("sid — relationships · pg".to_string()));
    s.active_id = Some("gone".to_string());
    assert_eq!(s.diagram_window_title(), Some("sid — relationships · connection".to_string()));
}

#[test]
fn a_save_deletes_the_minted_id_on_failure_and_the_superseded_id_on_success() {
    let staged = StagedSecret {
        secret_ref: Some("db-new-1".to_string()),
        delete_after_write: Some("db-old-0".to_string()),
        minted: true,
    };
    assert_eq!(secret_to_delete(&staged, false), Some("db-new-1".to_string()));
    assert_eq!(secret_to_delete(&staged, true), Some("db-old-0".to_string()));
    let kept = StagedSecret { secret_ref: Some("db-k".to_string()), delete_after_write: None, minted: false };
    assert_eq!(secret_to_delete(&kept, false), None);
    assert_eq!(secret_to_delete(&kept, true), None);
    assert_eq!(cleanup_warning(Ok(())), None);
    assert_eq!(
        cleanup_warning(Err("locked".to_string())),
        Some("saved, but deleting the old secret failed: locked".to_string())
    );
}

#[test]
fn a_press_asks_the_keyring_only_once_the_cheap_refusals_are_past() {
    let mut s = loaded();
    s.select_connection("pg".to_string());
    let before_generation = s.query_generation;
    assert_eq!(s.begin_run("   "), QueryStart::Refused);
    assert_eq!(s.status, QueryStatus::Failed("SQL is empty".to_string()));
    assert_eq!(s.begin_run("select 1"), QueryStart::Lookup { secret_ref: "db-pg-1".to_string() });
    assert_eq!(s.query_generation, before_generation);
    assert!(!s.running);
    assert_eq!(
        s.begin_explain("select 1", &ExplainSupport::Keyword("EXPLAIN".to_string())),
        QueryStart::Lookup { secret_ref: "db-pg-1".to_string() }
    );
    assert_eq!(s.begin_schema_refresh(), SchemaStart::Lookup { secret_ref: "db-pg-1".to_string() });
    s.select_connection("a".to_string());
    assert!(matches!(s.begin_run("select 1"), QueryStart::Start { secret: None, .. }));
}

#[test]
fn a_refused_add_stages_nothing_for_the_keyring() {
    let keyring = Keyring::default();
    assert!(prepare(&keyring, &submission(Some("pw"), None), Ok(true), "global", true).is_err());
    assert!(keyring.entries.borrow().is_empty());
    assert!(keyring.deletes.borrow().is_empty());
}

#[test]
fn a_save_ends_with_the_delete_answer() {
    assert_eq!(finish_db_save(Err("disk full".to_string()), Some(Err("locked".to_string()))), Err("disk full".to_string()));
    assert_eq!(finish_db_save(Ok(()), None), Ok(None));
    assert_eq!(finish_db_save(Ok(()), Some(Ok(()))), Ok(None));
    assert_eq!(
        finish_db_save(Ok(()), Some(Err("locked".to_string()))),
        Ok(Some("saved, but deleting the old secret failed: locked".to_string()))
    );
}

#[test]
fn a_connection_row_is_titled_by_name_or_id_over_its_engine_and_dsn() {
    let mut c = conn("pg", DbKind::Postgres, None).item;
    assert_eq!(connection_row_texts(&c, "postgres"), ("pg db".to_string(), "postgres · dsn".to_string()));
    c.name = String::new();
    assert_eq!(connection_row_texts(&c, "postgres").0, "pg");
}

#[test]
fn the_count_label_follows_the_status_the_plan_and_the_filter() {
    let mut s = loaded();
    assert_eq!(s.count_label(3, 3, "3 rows", "2 plan lines"), None);
    s.apply_query_page(page(None));
    assert_eq!(s.count_label(340, 340, "340 rows", "0 plan lines"), Some("340 rows · 7 ms".to_string()));
    assert_eq!(s.count_label(12, 340, "340 rows", "0 plan lines"), Some("12 of 340 rows · 7 ms".to_string()));
    s.status = QueryStatus::Failed("boom".to_string());
    assert_eq!(s.count_label(12, 340, "340 rows", "0 plan lines"), None);
}
