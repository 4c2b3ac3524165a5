use std::cell::RefCell;

use sid::db_tab::{
    next_export_name,
    connection_dot, csv_escape_field, csv_export_file_name, folder_value, group_connections,
    has_view_affordance, needs_password_prompt, page_to_csv, push_history, quote_ident,
    rename_value, resolve_db_secret, resolve_secret_lookup, sanitize_filename_component,
    schema_tree_rows, table_display_name, toggle_collapsed, where_filter_scaffold, ConnRow,
    ConnectionState, DbRetry, ExportFormat, SchemaRow, HISTORY_CAP,
};
use sid::model::{
    Attributed, ColumnType, DbColumn, DbConnection, DbKind, QueryPage, Row, SchemaInfo, Scope,
    TableInfo,
};

#[derive(Default)]
struct MemorySecretStore {
    entries: RefCell<Vec<(String, Vec<u8>)>>,
}

impl MemorySecretStore {
    fn put(&self, id: &str, secret: &[u8]) -> Result<(), String> {
        let mut e = self.entries.borrow_mut();
        e.retain(|(k, _)| k != id);
        e.push((id.to_string(), secret.to_vec()));
        Ok(())
    }

    fn get(&self, id: &str) -> Result<Option<Vec<u8>>, String> {
        Ok(self.entries.borrow().iter().find(|(k, _)| k == id).map(|(_, v)| v.clone()))
    }

    fn delete(&self, id: &str) -> Result<(), String> {
        self.entries.borrow_mut().retain(|(k, _)| k != id);
        Ok(())
    }
}

#[test]
fn an_open_client_reads_as_connected_even_while_a_query_runs() {
    assert_eq!(connection_dot(true, true, true, false), ConnectionState::Live);
    assert_eq!(connection_dot(true, false, false, false), ConnectionState::Live);
}

#[test]
fn the_selected_row_shows_the_work_in_flight() {
    assert_eq!(connection_dot(false, true, true, false), ConnectionState::Connecting);
}

#[test]
fn a_retry_in_flight_supersedes_the_error_it_is_retrying() {
    assert_eq!(connection_dot(false, true, true, true), ConnectionState::Connecting);
    assert_eq!(connection_dot(false, true, false, true), ConnectionState::Failed);
}

#[test]
fn an_unselected_row_never_wears_the_selection_s_state() {
    for busy in [true, false] {
        for errored in [true, false] {
            assert_eq!(
                connection_dot(false, false, busy, errored),
                ConnectionState::Offline,
                "busy={busy} errored={errored}"
            );
        }
    }
}

/// Resolve `secret_ref` as a connect does: the keyring is asked for the reference only
/// when there is one.
fn resolve_with(secrets: &MemorySecretStore, secret_ref: Option<&str>) -> Result<Option<String>, String> {
    let lookup = secret_ref.map(|r| secrets.get(r));
    resolve_db_secret(secret_ref, lookup)
}

#[test]
fn no_ref_resolves_to_no_secret() {
    let secrets = MemorySecretStore::default();
    assert_eq!(resolve_with(&secrets, None), Ok(None));
}

#[test]
fn present_ref_resolves_to_its_bytes() {
    let secrets = MemorySecretStore::default();
    secrets.put("db-a", b"hunter2").unwrap();
    assert_eq!(resolve_with(&secrets, Some("db-a")), Ok(Some("hunter2".to_string())));
}

#[test]
fn dangling_ref_is_an_error() {
    let secrets = MemorySecretStore::default();
    assert!(resolve_with(&secrets, Some("db-missing")).is_err());
}

#[test]
fn secret_lookup_outcomes_name_the_reference() {
    assert_eq!(
        resolve_secret_lookup("db-a", Ok(None)).unwrap_err(),
        "dangling secret_ref \"db-a\" — no secret in the keyring"
    );
    assert_eq!(
        resolve_secret_lookup("db-a", Err("locked".into())).unwrap_err(),
        "secret lookup for \"db-a\" failed: locked"
    );
    assert_eq!(
        resolve_secret_lookup("db-a", Ok(Some(vec![0xff]))).unwrap_err(),
        "stored secret is not valid UTF-8"
    );
    assert_eq!(resolve_secret_lookup("db-a", Ok(Some(b"pw".to_vec()))), Ok(Some("pw".to_string())));
}

#[test]
fn postgres_dangling_ref_needs_a_prompt() {
    let dangling: Result<Option<String>, String> = Err("dangling secret_ref".into());
    assert!(needs_password_prompt(DbKind::Postgres, &dangling));
}

#[test]
fn postgres_with_a_resolved_secret_never_prompts() {
    assert!(!needs_password_prompt(DbKind::Postgres, &Ok(Some("hunter2".to_string()))));
    assert!(!needs_password_prompt(DbKind::Postgres, &Ok(None)));
}

#[test]
fn sqlite_and_redb_never_prompt_even_on_a_dangling_ref() {
    let dangling: Result<Option<String>, String> = Err("dangling secret_ref".into());
    assert!(!needs_password_prompt(DbKind::Sqlite, &dangling));
    assert!(!needs_password_prompt(DbKind::Redb, &dangling));
    assert_ne!(DbRetry::RunQuery, DbRetry::RefreshSchema);
}

#[test]
fn formula_injection_payload_is_neutralized() {
    let payload = "=cmd|'/C calc'!A1";
    let escaped = csv_escape_field(payload);
    assert!(!escaped.starts_with('='), "escaped field must not start with '=': {escaped:?}");
    assert_eq!(escaped, format!("'{payload}"));
}

#[test]
fn each_formula_lead_character_is_guarded() {
    for lead in ['=', '+', '-', '@', '\t', '\r'] {
        let field = format!("{lead}rest");
        let escaped = csv_escape_field(&field);
        let unquoted = escaped.trim_matches('"');
        assert!(unquoted.starts_with('\''), "lead {lead:?} not guarded: {escaped:?}");
    }
}

#[test]
fn plain_field_is_untouched() {
    assert_eq!(csv_escape_field("hello"), "hello");
    assert_eq!(csv_escape_field(""), "");
}

#[test]
fn comma_and_quote_and_newline_trigger_rfc4180_quoting() {
    assert_eq!(csv_escape_field("a,b"), "\"a,b\"");
    assert_eq!(csv_escape_field("a\"b"), "\"a\"\"b\"");
    assert_eq!(csv_escape_field("a\nb"), "\"a\nb\"");
}

#[test]
fn page_to_csv_renders_header_and_rows_crlf_terminated() {
    let page = QueryPage {
        columns: vec![
            DbColumn { name: "id".into(), ty: ColumnType::Integer },
            DbColumn { name: "note".into(), ty: ColumnType::Text },
        ],
        rows: vec![Row { values: vec!["1".into(), "=evil()".into()] }],
        next_cursor: None,
        duration_ms: 0,
    };
    assert_eq!(page_to_csv(&page), "id,note\r\n1,'=evil()\r\n");
}

#[test]
fn sanitize_filename_component_strips_traversal_and_separators() {
    assert_eq!(sanitize_filename_component("prod"), "prod");
    assert_eq!(sanitize_filename_component("../../etc/passwd"), "______etc_passwd");
    assert_eq!(sanitize_filename_component("my db 1"), "my_db_1");
    assert_eq!(sanitize_filename_component(""), "query");
}

#[test]
fn export_file_names_count_up() {
    assert_eq!(csv_export_file_name("demo", 3), "demo-3.csv");
    assert_eq!(ExportFormat::all(), vec![ExportFormat::Csv]);
    assert_eq!(ExportFormat::Csv.label(), "CSV (current page)");
}

#[test]
fn pushes_grow_the_list_in_order() {
    let mut history = Vec::new();
    push_history(&mut history, "select 1".to_string(), 50);
    push_history(&mut history, "select 2".to_string(), 50);
    assert_eq!(history, vec!["select 1".to_string(), "select 2".to_string()]);
}

#[test]
fn consecutive_duplicate_is_not_pushed_again() {
    let mut history = Vec::new();
    push_history(&mut history, "select 1".to_string(), 50);
    push_history(&mut history, "select 1".to_string(), 50);
    assert_eq!(history, vec!["select 1".to_string()]);
}

#[test]
fn non_consecutive_duplicate_is_pushed_again() {
    let mut history = Vec::new();
    push_history(&mut history, "select 1".to_string(), 50);
    push_history(&mut history, "select 2".to_string(), 50);
    push_history(&mut history, "select 1".to_string(), 50);
    assert_eq!(
        history,
        vec!["select 1".to_string(), "select 2".to_string(), "select 1".to_string()]
    );
}

#[test]
fn ring_caps_at_capacity_dropping_oldest() {
    let mut history = Vec::new();
    for i in 0..5 {
        push_history(&mut history, format!("select {i}"), 3);
    }
    assert_eq!(
        history,
        vec!["select 2".to_string(), "select 3".to_string(), "select 4".to_string()]
    );
}

#[test]
fn the_history_never_passes_its_cap() {
    let mut history = Vec::new();
    for i in 0..(HISTORY_CAP + 10) {
        push_history(&mut history, format!("q{i}"), HISTORY_CAP);
        assert!(history.len() <= HISTORY_CAP);
        assert_eq!(history.last().unwrap(), &format!("q{i}"));
    }
}

fn table(schema: Option<&str>, name: &str, cols: &[&str]) -> TableInfo {
    TableInfo {
        schema: schema.map(str::to_string),
        name: name.to_string(),
        columns: cols.iter().map(|c| DbColumn { name: c.to_string(), ty: ColumnType::Text }).collect(),
    }
}

#[test]
fn collapsed_tables_render_as_headers_only() {
    let schema = SchemaInfo { tables: vec![table(None, "users", &["id", "name"]), table(None, "orders", &["id"])] };
    let rows = schema_tree_rows(&schema, &Vec::new());
    assert_eq!(
        rows,
        vec![
            SchemaRow::Table { display_name: "users".to_string(), expanded: false },
            SchemaRow::Table { display_name: "orders".to_string(), expanded: false },
        ]
    );
}

#[test]
fn expanded_table_inserts_its_columns_right_after_its_header() {
    let schema = SchemaInfo { tables: vec![table(None, "users", &["id", "name"]), table(None, "orders", &["id"])] };
    let expanded = vec!["users".to_string()];
    let rows = schema_tree_rows(&schema, &expanded);
    assert_eq!(
        rows,
        vec![
            SchemaRow::Table { display_name: "users".to_string(), expanded: true },
            SchemaRow::Column { name: "id".to_string() },
            SchemaRow::Column { name: "name".to_string() },
            SchemaRow::Table { display_name: "orders".to_string(), expanded: false },
        ]
    );
}

#[test]
fn postgres_schema_qualified_name_uses_schema_dot_table() {
    assert_eq!(table_display_name(&table(Some("public"), "users", &[])), "public.users");
}

#[test]
fn sqlite_table_with_no_schema_uses_bare_name() {
    assert_eq!(table_display_name(&table(None, "users", &[])), "users");
    assert_eq!(table_display_name(&table(Some(""), "users", &[])), "users");
}

#[test]
fn builds_a_where_scaffold_with_a_trailing_space() {
    assert_eq!(where_filter_scaffold("public.users", "user_id"), "SELECT * FROM public.users WHERE user_id = ");
    assert_eq!(
        where_filter_scaffold("public.users", "user id"),
        "SELECT * FROM public.users WHERE \"user id\" = "
    );
}

#[test]
fn quote_ident_defuses_hostile_introspected_names() {
    assert_eq!(quote_ident(r#"users"; DROP TABLE x;--"#), r#""users""; DROP TABLE x;--""#);
    assert_eq!(quote_ident("order items"), r#""order items""#);
    assert_eq!(quote_ident("public.users"), "public.users");
    assert_eq!(quote_ident("weird schema.users"), r#""weird schema".users"#);
    assert_eq!(quote_ident("_ok123"), "_ok123");
    assert_eq!(quote_ident("9lives"), "\"9lives\"");
    assert_eq!(quote_ident(""), "\"\"");
}

fn conn(id: &str, folder: Option<&str>) -> Attributed<DbConnection> {
    Attributed {
        item: DbConnection {
            id: id.to_string(),
            dsn: "d".to_string(),
            secret_ref: None,
            kind: DbKind::Postgres,
            name: id.to_string(),
            folder: folder.map(str::to_string),
        },
        origin: Scope::Global,
        duplicate: false,
    }
}

#[test]
fn all_ungrouped_connections_stay_in_incoming_order() {
    let conns = vec![conn("b", None), conn("a", None)];
    let rows = group_connections(&conns, &Vec::new());
    assert_eq!(rows, vec![ConnRow::Connection { id: "b".into() }, ConnRow::Connection { id: "a".into() }]);
}

#[test]
fn a_blank_folder_string_is_treated_as_ungrouped() {
    let conns = vec![conn("a", Some(""))];
    let rows = group_connections(&conns, &Vec::new());
    assert_eq!(rows, vec![ConnRow::Connection { id: "a".into() }]);
}

#[test]
fn ungrouped_connections_come_before_folders() {
    let conns = vec![conn("in-folder", Some("acme")), conn("top-level", None)];
    let rows = group_connections(&conns, &Vec::new());
    assert_eq!(
        rows,
        vec![
            ConnRow::Connection { id: "top-level".into() },
            ConnRow::Folder { name: "acme".into(), expanded: true, count: 1 },
            ConnRow::Connection { id: "in-folder".into() },
        ]
    );
}

#[test]
fn folders_are_sorted_alphabetically() {
    let conns = vec![conn("z", Some("zeta")), conn("a", Some("alpha"))];
    let rows = group_connections(&conns, &Vec::new());
    assert_eq!(
        rows,
        vec![
            ConnRow::Folder { name: "alpha".into(), expanded: true, count: 1 },
            ConnRow::Connection { id: "a".into() },
            ConnRow::Folder { name: "zeta".into(), expanded: true, count: 1 },
            ConnRow::Connection { id: "z".into() },
        ]
    );
}

#[test]
fn a_collapsed_folder_hides_its_members_but_keeps_its_header() {
    let conns = vec![conn("a", Some("acme")), conn("b", Some("acme"))];
    let collapsed = vec!["acme".to_string()];
    let rows = group_connections(&conns, &collapsed);
    assert_eq!(rows, vec![ConnRow::Folder { name: "acme".into(), expanded: false, count: 2 }]);
}

#[test]
fn toggling_a_folder_twice_restores_it() {
    let mut collapsed: Vec<String> = Vec::new();
    toggle_collapsed(&mut collapsed, "acme");
    assert_eq!(collapsed, vec!["acme".to_string()]);
    toggle_collapsed(&mut collapsed, "acme");
    assert!(collapsed.is_empty());
}

#[test]
fn inline_edits_trim_their_input() {
    assert_eq!(rename_value("  new name "), Ok("new name".to_string()));
    assert_eq!(rename_value("   "), Err("name must not be empty".to_string()));
    assert_eq!(folder_value("  team "), Some("team".to_string()));
    assert_eq!(folder_value("  "), None);
    assert!(has_view_affordance(&"x".repeat(49)));
    assert!(!has_view_affordance(&"x".repeat(48)));
}

#[test]
fn the_next_export_name_is_the_least_free_number() {
    let taken = vec!["demo-1.csv".to_string(), "demo-2.csv".to_string(), "other-3.csv".to_string()];
    assert_eq!(next_export_name("demo", &taken), "demo-3.csv");
    assert_eq!(next_export_name("demo", &vec![]), "demo-1.csv");
    let gap = vec!["demo-2.csv".to_string()];
    assert_eq!(next_export_name("demo", &gap), "demo-1.csv");
}
