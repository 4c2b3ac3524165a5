use sid::command_palette::{
    close_palette, palette_entries, toggle_palette, PaletteState, PaletteTarget,
};
use sid::config_editor::{
    Access, ConfigEditorState, EditorBody, EditorMode, SaveOutcome, UnlockOutcome,
};
use sid::db_diagram::{
    column_rows, overflow_note, DiagramView, ForeignKey, SchemaGraph, BOX_WIDTH, GAP_X, MARGIN,
};
use sid::model::{AuthMethod, ColumnType, DbColumn, Host, SchemaInfo, TableInfo};

fn table(name: &str, cols: &[&str]) -> TableInfo {
    TableInfo {
        schema: None,
        name: name.to_string(),
        columns: cols
            .iter()
            .map(|c| DbColumn { name: c.to_string(), ty: ColumnType::Text })
            .collect(),
    }
}

fn fk(from: &str, from_cols: &[&str], to: &str, to_cols: &[&str]) -> ForeignKey {
    ForeignKey {
        from_table: from.to_string(),
        from_columns: from_cols.iter().map(|c| c.to_string()).collect(),
        to_table: to.to_string(),
        to_columns: to_cols.iter().map(|c| c.to_string()).collect(),
    }
}

#[test]
fn the_diagram_keeps_edges_between_known_tables_and_places_hubs_first() {
    let schema = SchemaInfo {
        tables: vec![
            table("orders", &["id", "user_id"]),
            table("users", &["id", "manager_id"]),
            table("audit", &["at"]),
        ],
    };
    let graph = SchemaGraph {
        foreign_keys: vec![
            fk("orders", &["user_id"], "users", &["id"]),
            fk("users", &["manager_id"], "users", &["id"]),
            fk("orders", &["x"], "ghost", &["y"]),
        ],
        primary_keys: vec![("users".to_string(), vec!["id".to_string()])],
    };
    let d = DiagramView::new(&schema, &graph);
    assert_eq!(d.tables.len(), 3);
    assert_eq!(d.edges.len(), 2);
    assert!(d.edges[1].self_ref);
    assert_eq!(d.self_ref_count("users"), 1);
    assert_eq!(d.self_ref_count("orders"), 0);
    assert_eq!(d.tables[1].pk, vec!["id".to_string()]);
    // a foreign key to a table outside the snapshot still marks its own column
    assert_eq!(d.tables[0].fk_columns, vec!["user_id".to_string(), "x".to_string()]);
    // users touches two edges, orders one, audit none
    let order: Vec<&str> = d.positions.iter().map(|p| p.key.as_str()).collect();
    assert_eq!(order, vec!["users", "orders", "audit"]);
    assert_eq!(d.positions[0].x, MARGIN as u128);
    assert_eq!(d.positions[0].y, MARGIN);
    let (summary, hint) = d.header_texts();
    assert_eq!(summary, "3 tables · 2 relationships");
    assert_eq!(hint, None);

    let rows = column_rows(&d.tables[1]);
    assert_eq!(rows[0].label, "[pk] id");
    assert!(rows[0].is_pk && rows[0].is_fk);
    assert_eq!(rows[1].label, "manager_id");
    assert!(!rows[1].is_pk && rows[1].is_fk);
    let _ = (BOX_WIDTH, GAP_X);
}

#[test]
fn a_diagram_without_foreign_keys_says_so() {
    let schema = SchemaInfo { tables: vec![table("t", &["a"])] };
    let d = DiagramView::new(&schema, &SchemaGraph { foreign_keys: Vec::new(), primary_keys: Vec::new() });
    assert_eq!(
        d.header_texts(),
        ("1 tables · 0 relationships".to_string(), Some("no foreign keys detected — showing table layout only"))
    );
    assert_eq!(overflow_note(14), None);
    assert_eq!(overflow_note(20), Some("+6 more".to_string()));
}

fn host(alias: &str) -> Host {
    Host {
        alias: alias.to_string(),
        user: "me".to_string(),
        host: "h.example".to_string(),
        port: 22,
        secret_ref: None,
        auth: AuthMethod::Agent,
        folder: None,
    }
}

#[test]
fn palette_rows_cover_actions_connections_and_sessions() {
    let actions = vec![
        ("Open database tab".to_string(), Some("Ctrl+D".to_string())),
        ("Quit".to_string(), None),
    ];
    let hosts = vec![host("database-prod")];
    let sessions = vec!["database shell".to_string()];
    let rows = palette_entries("data", &actions, &hosts, &sessions);
    assert_eq!(rows.len(), 3);
    // prefix matches (connection, session) outrank the substring match (action)
    assert_eq!(rows[0].target, PaletteTarget::Connection(0));
    assert_eq!(rows[0].subtitle.as_deref(), Some("connect — me@h.example"));
    assert_eq!(rows[1].target, PaletteTarget::Session(0));
    assert_eq!(rows[1].subtitle.as_deref(), Some("open session tab"));
    assert_eq!(rows[2].target, PaletteTarget::Action(0));
    assert_eq!(rows[2].shortcut.as_deref(), Some("Ctrl+D"));
    assert_eq!(palette_entries("", &actions, &hosts, &sessions).len(), 4);
}

#[test]
fn the_palette_opens_closes_and_wraps_its_selection() {
    let mut palette: Option<PaletteState> = None;
    toggle_palette(&mut palette, true);
    assert!(palette.is_none());
    toggle_palette(&mut palette, false);
    assert_eq!(palette, Some(PaletteState { query: String::new(), selection: 0 }));
    let p = palette.as_mut().unwrap();
    p.move_by(-1, 3);
    assert_eq!(p.selection, 2);
    p.move_by(1, 3);
    assert_eq!(p.selection, 0);
    let rows = palette_entries("quit", &vec![("Quit".to_string(), None)], &Vec::new(), &Vec::new());
    p.selection = 9;
    assert_eq!(p.selected_target(&rows), Some(PaletteTarget::Action(0)));
    assert_eq!(p.selected_target(&Vec::new()), None);
    assert!(close_palette(&mut palette));
    assert!(!close_palette(&mut palette));
    toggle_palette(&mut palette, false);
    toggle_palette(&mut palette, false);
    assert!(palette.is_none());
}

#[test]
fn opening_a_root_file_offers_the_unlock() {
    let mut e = ConfigEditorState::open("/etc/sudoers".to_string());
    assert!(!e.finish_open("/etc/other", Ok((Access::Denied, None))));
    assert_eq!(e.body, EditorBody::Loading);
    assert!(e.finish_open("/etc/sudoers", Ok((Access::Denied, None))));
    assert_eq!(e.body, EditorBody::Locked);
    assert_eq!(e.mode(), EditorMode::NeedsRoot { has_content: false });

    let mut missing = ConfigEditorState::open("/etc/nope".to_string());
    missing.finish_open("/etc/nope", Ok((Access::Missing, None)));
    assert_eq!(missing.body, EditorBody::Notice("/etc/nope does not exist".to_string()));
}

#[test]
fn an_unlock_retries_on_a_wrong_password_and_then_edits_as_root() {
    let mut e = ConfigEditorState::open("/etc/fstab".to_string());
    e.finish_open("/etc/fstab", Ok((Access::ReadOnly, Some(Ok("a".to_string())))));
    assert_eq!(e.banner(), Some("read-only — this file belongs to root"));
    assert!(!e.can_save_now());
    assert_eq!(e.submit_unlock(), None);
    e.open_unlock(None);
    assert_eq!(e.submit_unlock(), None);
    assert_eq!(e.unlock.as_ref().unwrap().error.as_deref(), Some("enter your password"));
    e.unlock.as_mut().unwrap().password = "pw".to_string();
    assert_eq!(e.submit_unlock(), Some("pw".to_string()));
    assert_eq!(e.submit_unlock(), None);
    e.finish_unlock("/etc/fstab", "pw".to_string(), Ok(UnlockOutcome::Retry("incorrect password".to_string())));
    let p = e.unlock.as_ref().unwrap();
    assert_eq!((p.password.as_str(), p.busy), ("", false));
    assert_eq!(p.error.as_deref(), Some("incorrect password"));
    e.unlock.as_mut().unwrap().password = "hunter2".to_string();
    assert_eq!(e.submit_unlock(), Some("hunter2".to_string()));
    e.finish_unlock("/etc/fstab", "hunter2".to_string(), Ok(UnlockOutcome::Unlocked("a".to_string())));
    assert_eq!(e.elevated.as_deref(), Some("hunter2"));
    assert!(e.unlock.is_none());
    assert_eq!(e.banner(), Some("unlocked — edits are saved as root"));
    e.edit("b".to_string());
    assert!(e.can_save_now());
    let req = e.begin_save().unwrap();
    assert_eq!(req.secret.as_deref(), Some("hunter2"));
    assert_eq!(req.contents, "b");
    assert_eq!(e.save_texts().0, "saving…");
    e.finish_save("/etc/fstab", Ok(SaveOutcome::Reauth("incorrect password".to_string())));
    assert_eq!(e.elevated, None);
    assert!(e.unlock.is_some());
    assert_eq!(e.body, EditorBody::Editor { text: "b".to_string(), dirty: true });
}

#[test]
fn a_direct_save_clears_dirtiness_or_reports_its_error() {
    let mut e = ConfigEditorState::open("/home/me/.bashrc".to_string());
    e.finish_open("/home/me/.bashrc", Ok((Access::ReadWrite, Some(Ok("x".to_string())))));
    assert_eq!(e.begin_save().map(|r| r.contents), None);
    e.edit("y".to_string());
    assert_eq!(e.begin_save().unwrap().secret, None);
    e.finish_save("/home/me/.bashrc", Ok(SaveOutcome::Failed("disk full".to_string())));
    assert_eq!(e.save_texts(), ("save", Some("save failed: disk full".to_string())));
    e.begin_save().unwrap();
    e.finish_save("/home/me/.bashrc", Ok(SaveOutcome::Saved));
    assert_eq!(e.body, EditorBody::Editor { text: "y".to_string(), dirty: false });
    assert!(!e.dismiss_layer() || e.unlock.is_none());
}
