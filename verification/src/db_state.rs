//! The Database tab's state and the decisions that move it: which connection is
//! selected, running a query, paging, explaining, fetching the schema, the inline
//! rename and folder edits, the two-click delete and the CSV export.
//!
//! Work that waits on a database, the keyring's disk or the file system is started by
//! the owner from what a `begin_*` method returns, and its outcome comes back through
//! the matching `finish_*` method. Queries and schema fetches carry a generation: a
//! completion applies only while its generation is still the current one, so a result
//! for a connection the user has left never lands under the new one.

use vstd::prelude::*;
use crate::numeral::{decimal, push_decimal};
use crate::model::{Attributed, DbConnection, DbKind, QueryPage, SchemaInfo, Scope};
use crate::text::{str_eq, views, trim_seq, trim_string, chars_of, push_all, join_with, cat};
use crate::db_tab::{
    push_history, history_after, HISTORY_CAP, resolve_secret_lookup, lookup_view, secret_outcome, secret_view,
    toggle_collapsed, toggled, rename_value, folder_value, quote_ident,
    quote_ident_spec, where_filter_scaffold, page_to_csv, page_csv, ExportFormat, connection_dot,
    ConnectionState,
};
use crate::db_conn_form::{copy_connection, add_guard, plan_secret, plan_spec, stage_secret, Submission};
use crate::secrets::{StagedSecret, Staging, staged_as, opt_view};
use crate::db_results::plan_lines;
use crate::secrets::copy_opt;

verus! {

/// The query pane's status line.
#[derive(Debug, PartialEq, Eq)]
pub enum QueryStatus {
    Idle,
    /// The last query came back in `duration_ms`; `has_more` when more pages follow.
    Done { duration_ms: u64, has_more: bool },
    /// The last action failed, with this message.
    Failed(String),
}

/// A query plan on show: the engine's explain keyword and one line per plan row.
#[derive(Debug, PartialEq, Eq)]
pub struct PlanView {
    pub keyword: String,
    pub lines: Vec<String>,
}

/// An inline edit in progress on one connection row: the row's id and layer, and the
/// edit field's text.
#[derive(Debug, PartialEq, Eq)]
pub struct InlineEdit {
    pub id: String,
    pub origin: Scope,
    pub text: String,
}

/// The read-only popover of one long cell: its column and full text.
#[derive(Debug, PartialEq, Eq)]
pub struct CellView {
    pub column: String,
    pub text: String,
}

/// The Database tab's state. `client_for` names the connection the open client (held
/// by the owner) belongs to.
#[derive(Debug)]
pub struct DbTabState {
    pub connections: Vec<Attributed<DbConnection>>,
    pub active_id: Option<String>,
    pub armed_delete: Option<(String, Scope)>,
    pub client_for: Option<String>,
    pub running: bool,
    pub status: QueryStatus,
    pub last_sql: Option<String>,
    pub next_cursor: Option<String>,
    pub plan: Option<PlanView>,
    pub last_page: Option<QueryPage>,
    pub schema: Option<SchemaInfo>,
    pub schema_loading: bool,
    pub schema_generation: u64,
    pub query_generation: u64,
    pub schema_error: Option<String>,
    pub schema_expanded: Vec<String>,
    pub cell_view: Option<CellView>,
    pub notice: Option<String>,
    pub export_menu_open: bool,
    pub history: Vec<String>,
    pub collapsed_folders: Vec<String>,
    pub renaming: Option<InlineEdit>,
    pub folder_editing: Option<InlineEdit>,
}

/// The engine's plan support for the selected connection: none selected, no planner
/// (with the reason, when the engine gives one), or the statement's keyword.
#[derive(Debug, PartialEq, Eq)]
pub enum ExplainSupport {
    NoConnection,
    Unsupported(Option<String>),
    Keyword(String),
}

/// What pressing Run, or Explain, comes to.
#[derive(Debug, PartialEq, Eq)]
pub enum QueryStart {
    /// Nothing happens: a query is in flight, or there is nothing to act on.
    Ignored,
    /// Refused; the reason is on the status line.
    Refused,
    /// Nothing changed yet: look `secret_ref` up in the keyring and hand its answer
    /// to the matching `resume_*` method.
    Lookup { secret_ref: String },
    /// The secret lookup failed for an engine that takes a password: ask for it (the
    /// prompt named after the connection), then retry.
    Prompt { label: String, secret_ref: String },
    /// Run `sql` against `connection` (selected as `id`) with `secret`, reusing the
    /// open client when `reuse_client`; the completion carries `generation`.
    Start {
        generation: u64,
        id: String,
        connection: DbConnection,
        secret: Option<String>,
        reuse_client: bool,
        sql: String,
    },
}

/// What a schema refresh comes to.
#[derive(Debug, PartialEq, Eq)]
pub enum SchemaStart {
    /// No connection is selected (or it is gone).
    Ignored,
    /// The secret lookup failed; its message is the schema error.
    Refused,
    /// Nothing changed yet: look `secret_ref` up in the keyring and hand its answer
    /// to [`DbTabState::resume_schema_refresh`].
    Lookup { secret_ref: String },
    /// Ask for the password, then retry.
    Prompt { label: String, secret_ref: String },
    /// Fetch the schema of `connection`; the completion carries `generation`.
    Start {
        generation: u64,
        id: String,
        connection: DbConnection,
        secret: Option<String>,
        reuse_client: bool,
    },
}

/// What committing an inline rename comes to.
#[derive(Debug, PartialEq, Eq)]
pub enum RenameCommit {
    /// No rename was in progress.
    NotRenaming,
    /// The trimmed name is empty; the rename stays open.
    Invalid(String),
    /// Write `name` for connection `id` in layer `origin`.
    Write { origin: Scope, id: String, name: String },
}

/// The next generation of a fetch counter (wrapping past the largest).
pub open spec fn next_gen(g: u64) -> u64 {
    if g < u64::MAX {
        (g + 1) as u64
    } else {
        0
    }
}

fn bump(g: u64) -> (r: u64)
    ensures
        r == next_gen(g),
{
    if g < u64::MAX {
        g + 1
    } else {
        0
    }
}

/// The characters of an optional name.
pub open spec fn name_view(o: Option<String>) -> Option<Seq<char>> {
    match o {
        Some(s) => Some(s@),
        None => None,
    }
}

/// `i` is where the first connection with id `id` sits.
pub open spec fn first_with_id(conns: Seq<Attributed<DbConnection>>, id: Seq<char>, i: int) -> bool {
    0 <= i < conns.len() && conns[i].item.id@ == id && forall|j: int|
        0 <= j < i ==> (#[trigger] conns[j]).item.id@ != id
}

/// Some connection has id `id`.
pub open spec fn has_id(conns: Seq<Attributed<DbConnection>>, id: Seq<char>) -> bool {
    exists|j: int| 0 <= j < conns.len() && (#[trigger] conns[j]).item.id@ == id
}

/// The first connection with id `id`.
pub fn find_connection(conns: &Vec<Attributed<DbConnection>>, id: &str) -> (r: Option<usize>)
    ensures
        match r {
            Some(i) => first_with_id(conns@, id@, i as int),
            None => !has_id(conns@, id@),
        },
{
    let mut i: usize = 0;
    while i < conns.len()
        invariant
            i <= conns.len(),
            forall|j: int| 0 <= j < i ==> (#[trigger] conns@[j]).item.id@ != id@,
        decreases conns.len() - i,
    {
        if str_eq(conns[i].item.id.as_str(), id) {
            return Some(i);
        }
        i = i + 1;
    }
    None
}

/// The error text of a status line.
pub open spec fn status_err(s: QueryStatus) -> Option<Seq<char>> {
    match s {
        QueryStatus::Failed(e) => Some(e@),
        _ => None,
    }
}

/// `new` is `old` with only the status line changed, to the error `msg`.
pub open spec fn refused_with(old: DbTabState, new: DbTabState, msg: Seq<char>) -> bool {
    &&& status_err(new.status) == Some(msg)
    &&& new == (DbTabState { status: new.status, ..old })
}

/// Pressing Run with `sql`, given the outcome `sec` of the selected connection's secret
/// lookup: busy while a query runs; refused without a selection, when the selected
/// connection is gone, or on blank SQL; a failed lookup asks for the password on
/// Postgres and is refused otherwise; else the query starts — the results pane is
/// reset (no cursor, no plan), the SQL is remembered and recorded in the history, and
/// the query generation advances.
pub open spec fn run_spec(
    old: DbTabState,
    new: DbTabState,
    sql: Seq<char>,
    sec: Result<Option<String>, String>,
    r: QueryStart,
) -> bool {
    if old.running {
        r is Ignored && new == old
    } else {
        match old.active_id {
            None => r is Refused && refused_with(old, new, "select a connection first"@),
            Some(id) => if !has_id(old.connections@, id@) {
                r is Refused && refused_with(old, new, "selected connection no longer exists"@)
            } else if trim_seq(sql).len() == 0 {
                r is Refused && refused_with(old, new, "SQL is empty"@)
            } else {
                let i = choose|i: int| first_with_id(old.connections@, id@, i);
                let c = old.connections@[i].item;
                match sec {
                    Err(e) => if c.kind == DbKind::Postgres {
                        new == old && (r matches QueryStart::Prompt { label, secret_ref }
                            && label == c.name && Some(secret_ref) == c.secret_ref)
                    } else {
                        r is Refused && refused_with(old, new, e@)
                    },
                    Ok(s) => {
                        &&& r matches QueryStart::Start {
                            generation,
                            id: rid,
                            connection,
                            secret,
                            reuse_client,
                            sql: rsql,
                        }
                        &&& generation == next_gen(old.query_generation)
                        &&& rid@ == id@ && connection == c && secret == s && rsql@ == sql
                        &&& reuse_client == (name_view(old.client_for) == Some(id@))
                        &&& new.running && new.next_cursor is None && new.plan is None
                        &&& name_view(new.last_sql) == Some(sql)
                        &&& views(new.history@) == history_after(
                            views(old.history@),
                            sql,
                            HISTORY_CAP as int,
                        )
                        &&& new == (DbTabState {
                            running: true,
                            next_cursor: None,
                            plan: None,
                            last_sql: new.last_sql,
                            history: new.history,
                            query_generation: next_gen(old.query_generation),
                            ..old
                        })
                    },
                }
            },
        }
    }
}

/// Pressing Explain with `sql`, given the engine's plan support and the outcome `sec`
/// of the secret lookup: busy while a query runs; refused without a connection, for an
/// engine with no planner (with its reason, or a generic one), when the connection is
/// gone, on blank SQL, or when the lookup failed (no prompt here); else the plan query
/// starts and the query generation advances. The results pane is left as it is.
pub open spec fn explain_spec(
    old: DbTabState,
    new: DbTabState,
    sql: Seq<char>,
    support: ExplainSupport,
    sec: Result<Option<String>, String>,
    r: QueryStart,
) -> bool {
    if old.running {
        r is Ignored && new == old
    } else {
        match support {
            ExplainSupport::NoConnection => r is Refused && refused_with(
                old,
                new,
                "select a connection first"@,
            ),
            ExplainSupport::Unsupported(reason) => r is Refused && refused_with(
                old,
                new,
                match reason {
                    Some(m) => m@,
                    None => "this engine has no query planner"@,
                },
            ),
            ExplainSupport::Keyword(_) => match old.active_id {
                None => r is Ignored && new == old,
                Some(id) => if !has_id(old.connections@, id@) {
                    r is Refused && refused_with(old, new, "selected connection no longer exists"@)
                } else if trim_seq(sql).len() == 0 {
                    r is Refused && refused_with(old, new, "SQL is empty"@)
                } else {
                    let i = choose|i: int| first_with_id(old.connections@, id@, i);
                    let c = old.connections@[i].item;
                    match sec {
                        Err(e) => r is Refused && refused_with(old, new, e@),
                        Ok(s) => {
                            &&& r matches QueryStart::Start {
                                generation,
                                id: rid,
                                connection,
                                secret,
                                reuse_client,
                                sql: rsql,
                            }
                            &&& generation == next_gen(old.query_generation)
                            &&& rid@ == id@ && connection == c && secret == s && rsql@ == sql
                            &&& reuse_client == (name_view(old.client_for) == Some(id@))
                            &&& new == (DbTabState {
                                running: true,
                                query_generation: next_gen(old.query_generation),
                                ..old
                            })
                        },
                    }
                },
            },
        }
    }
}

/// A schema refresh, given the outcome `sec` of the secret lookup: nothing without a
/// selected, existing connection; a failed lookup asks for the password on Postgres and
/// otherwise becomes the schema error; else the fetch starts: loading, no error, and
/// the schema generation advances.
pub open spec fn schema_spec(
    old: DbTabState,
    new: DbTabState,
    sec: Result<Option<String>, String>,
    r: SchemaStart,
) -> bool {
    match old.active_id {
        None => r is Ignored && new == old,
        Some(id) => if !has_id(old.connections@, id@) {
            r is Ignored && new == old
        } else {
            let i = choose|i: int| first_with_id(old.connections@, id@, i);
            let c = old.connections@[i].item;
            match sec {
                Err(e) => if c.kind == DbKind::Postgres {
                    new == old && (r matches SchemaStart::Prompt { label, secret_ref }
                        && label == c.name && Some(secret_ref) == c.secret_ref)
                } else {
                    r is Refused && name_view(new.schema_error) == Some(e@) && new == (
                    DbTabState { schema_error: new.schema_error, ..old })
                },
                Ok(s) => {
                    &&& r matches SchemaStart::Start {
                        generation,
                        id: rid,
                        connection,
                        secret,
                        reuse_client,
                    }
                    &&& generation == next_gen(old.schema_generation)
                    &&& rid@ == id@ && connection == c && secret == s
                    &&& reuse_client == (name_view(old.client_for) == Some(id@))
                    &&& new == (DbTabState {
                        schema_loading: true,
                        schema_error: None,
                        schema_generation: next_gen(old.schema_generation),
                        ..old
                    })
                },
            }
        },
    }
}

/// `new` is `old` with a page applied: the status reports its duration and whether
/// more pages follow, the cursor is its cursor, and it is the page an export writes.
pub open spec fn page_applied(old: DbTabState, new: DbTabState, page: QueryPage) -> bool {
    &&& new.status matches QueryStatus::Done { duration_ms, has_more }
    &&& duration_ms == page.duration_ms && has_more == page.next_cursor is Some
    &&& new == (DbTabState {
        status: new.status,
        next_cursor: page.next_cursor,
        last_page: Some(page),
        ..old
    })
}

/// A layer as its kind and workspace id.
pub open spec fn scope_view(s: Scope) -> Option<Seq<char>> {
    match s {
        Scope::Global => None,
        Scope::Workspace(id) => Some(id@),
    }
}

/// Whether two layers are the same.
pub fn same_scope(a: &Scope, b: &Scope) -> (r: bool)
    ensures
        r == (scope_view(*a) == scope_view(*b)),
{
    match (a, b) {
        (Scope::Global, Scope::Global) => true,
        (Scope::Workspace(x), Scope::Workspace(y)) => str_eq(x.as_str(), y.as_str()),
        _ => false,
    }
}

/// The two-click delete: the second click on the armed row executes.
pub fn delete_click_executes(armed: &Option<(String, Scope)>, id: &str, origin: &Scope) -> (b: bool)
    ensures
        b == (*armed matches Some((a, o)) && a@ == id@ && scope_view(o) == scope_view(*origin)),
{
    match armed {
        Some((a, o)) => str_eq(a.as_str(), id) && same_scope(o, origin),
        None => false,
    }
}

/// The selected connection, when the selection names one.
pub open spec fn selected_conn(old: DbTabState) -> DbConnection {
    let id = old.active_id->Some_0;
    let i = choose|i: int| first_with_id(old.connections@, id@, i);
    old.connections@[i].item
}

/// Whether the selection names an existing connection.
pub open spec fn has_selection(old: DbTabState) -> bool {
    old.active_id matches Some(id) && has_id(old.connections@, id@)
}

/// The keyring reference a press must look up first: only when it is `consulted`
/// (the cheaper refusals ruled out), a connection is selected, and it carries a
/// `secret_ref`.
pub open spec fn lookup_ref(s: DbTabState, consulted: bool) -> Option<Seq<char>> {
    if consulted && has_selection(s) {
        name_view(selected_conn(s).secret_ref)
    } else {
        None
    }
}

/// The secret a press works with, given the keyring's answer `lookup` for
/// [`lookup_ref`] (no reference: no secret, and the answer is not read).
pub open spec fn secret_given(s: DbTabState, consulted: bool, lookup: Result<Option<Vec<u8>>, String>) -> Result<
    Option<Seq<char>>,
    Seq<char>,
> {
    match lookup_ref(s, consulted) {
        Some(x) => secret_outcome(x, lookup_view(lookup)),
        None => Ok(None),
    }
}

proof fn lemma_first_unique(conns: Seq<Attributed<DbConnection>>, id: Seq<char>, i: int, j: int)
    requires
        first_with_id(conns, id, i),
        first_with_id(conns, id, j),
    ensures
        i == j,
{
    if i < j {
        assert(conns[i].item.id@ != id);
    } else if j < i {
        assert(conns[j].item.id@ != id);
    }
}

proof fn lemma_choose_first(conns: Seq<Attributed<DbConnection>>, id: Seq<char>, i: int)
    requires
        first_with_id(conns, id, i),
    ensures
        has_id(conns, id),
        (choose|k: int| first_with_id(conns, id, k)) == i,
{
    assert(conns[i].item.id@ == id);
    let k = choose|k: int| first_with_id(conns, id, k);
    lemma_first_unique(conns, id, k, i);
}

/// The statement a table name's click puts in the editor.
pub fn select_star(display_name: &str) -> (r: String)
    ensures
        r@ == "SELECT * FROM "@ + quote_ident_spec(display_name@),
{
    let q = quote_ident(display_name);
    let mut r = String::from_str("SELECT * FROM ");
    push_all(&mut r, &chars_of(q.as_str()));
    r
}

/// The notice of a finished export: where it went, or why it failed.
pub fn export_notice(result: Result<String, String>) -> (r: String)
    ensures
        match result {
            Ok(path) => r@ == "✓ exported to "@ + path@,
            Err(e) => r@ == "✗ export failed: "@ + e@,
        },
{
    match result {
        Ok(path) => {
            let mut r = String::from_str("✓ exported to ");
            push_all(&mut r, &chars_of(path.as_str()));
            r
        },
        Err(e) => {
            let mut r = String::from_str("✗ export failed: ");
            push_all(&mut r, &chars_of(e.as_str()));
            r
        },
    }
}

/// The warning left after a delete whose keyring clean-up failed.
pub fn delete_warning(secret_delete: Result<(), String>) -> (r: Option<String>)
    ensures
        match secret_delete {
            Ok(()) => r is None,
            Err(e) => r matches Some(w) && w@
                == "connection deleted, but deleting its secret failed: "@ + e@,
        },
{
    match secret_delete {
        Ok(()) => None,
        Err(e) => {
            let mut w = String::from_str("connection deleted, but deleting its secret failed: ");
            push_all(&mut w, &chars_of(e.as_str()));
            Some(w)
        },
    }
}

impl DbTabState {
    /// The tab before anything is loaded.
    pub fn new() -> (s: DbTabState)
        ensures
            s.connections@.len() == 0 && s.active_id is None && s.armed_delete is None,
            s.client_for is None && !s.running && s.status is Idle && s.last_sql is None,
            s.next_cursor is None && s.plan is None && s.last_page is None && s.schema is None,
            !s.schema_loading && s.schema_generation == 0 && s.query_generation == 0,
            s.schema_error is None && s.schema_expanded@.len() == 0 && s.cell_view is None,
            s.notice is None && !s.export_menu_open && s.history@.len() == 0,
            s.collapsed_folders@.len() == 0 && s.renaming is None && s.folder_editing is None,
    {
        DbTabState {
            connections: Vec::new(),
            active_id: None,
            armed_delete: None,
            client_for: None,
            running: false,
            status: QueryStatus::Idle,
            last_sql: None,
            next_cursor: None,
            plan: None,
            last_page: None,
            schema: None,
            schema_loading: false,
            schema_generation: 0,
            query_generation: 0,
            schema_error: None,
            schema_expanded: Vec::new(),
            cell_view: None,
            notice: None,
            export_menu_open: false,
            history: Vec::new(),
            collapsed_folders: Vec::new(),
            renaming: None,
            folder_editing: None,
        }
    }

    /// Take a fresh read of the connection list (any refresh changes the rows, so a
    /// pending delete is disarmed): the list, or — on a failed read — no rows and the
    /// message, which is returned for the owner's error line.
    pub fn refresh(&mut self, read: Result<Vec<Attributed<DbConnection>>, String>) -> (err: Option<String>)
        ensures
            final(self).armed_delete is None,
            match read {
                Ok(list) => err is None && final(self).connections == list,
                Err(e) => err == Some(e) && final(self).connections@.len() == 0,
            },
            *final(self) == (DbTabState {
                connections: final(self).connections,
                armed_delete: None,
                ..*old(self)
            }),
    {
        self.armed_delete = None;
        match read {
            Ok(list) => {
                self.connections = list;
                None
            },
            Err(e) => {
                self.connections = Vec::new();
                Some(e)
            },
        }
    }

    /// Select connection `id`. Switching to another connection drops the old one's
    /// schema and query pane at once and advances both generations, so nothing still in
    /// flight for it can land under the new selection. Says whether it switched.
    pub fn select_connection(&mut self, id: String) -> (switched: bool)
        ensures
            switched == (name_view(old(self).active_id) != Some(id@)),
            final(self).active_id == Some(id),
            !switched ==> *final(self) == (DbTabState { active_id: Some(id), ..*old(self) }),
            switched ==> final(self).schema_expanded@.len() == 0 && *final(self) == (
            DbTabState {
                active_id: Some(id),
                schema: None,
                schema_error: None,
                schema_expanded: final(self).schema_expanded,
                schema_generation: next_gen(old(self).schema_generation),
                query_generation: next_gen(old(self).query_generation),
                schema_loading: false,
                running: false,
                status: QueryStatus::Idle,
                last_sql: None,
                next_cursor: None,
                last_page: None,
                plan: None,
                ..*old(self)
            }),
    {
        let same = match &self.active_id {
            Some(a) => str_eq(a.as_str(), id.as_str()),
            None => false,
        };
        if !same {
            self.schema = None;
            self.schema_error = None;
            self.schema_expanded = Vec::new();
            self.schema_generation = bump(self.schema_generation);
            self.query_generation = bump(self.query_generation);
            self.schema_loading = false;
            self.running = false;
            self.status = QueryStatus::Idle;
            self.last_sql = None;
            self.next_cursor = None;
            self.last_page = None;
            self.plan = None;
        }
        self.active_id = Some(id);
        !same
    }

    /// Press Run with `sql`, given the outcome of the selected connection's secret
    /// lookup, as [`run_spec`] says.
    pub fn run_with_secret(&mut self, sql: &str, sec: Result<Option<String>, String>) -> (r: QueryStart)
        requires
            !old(self).running && has_selection(*old(self)) && trim_seq(sql@).len() > 0 && sec is Err
                && selected_conn(*old(self)).kind == DbKind::Postgres ==> selected_conn(
                *old(self),
            ).secret_ref is Some,
        ensures
            run_spec(*old(self), *final(self), sql@, sec, r),
    {
        if self.running {
            return QueryStart::Ignored;
        }
        let id = match &self.active_id {
            Some(id) => id.clone(),
            None => {
                self.status = QueryStatus::Failed(String::from_str("select a connection first"));
                return QueryStart::Refused;
            },
        };
        let i = match find_connection(&self.connections, id.as_str()) {
            Some(i) => i,
            None => {
                self.status = QueryStatus::Failed(
                    String::from_str("selected connection no longer exists"),
                );
                return QueryStart::Refused;
            },
        };
        proof {
            lemma_choose_first(self.connections@, id@, i as int);
        }
        let t = trim_string(sql);
        if t.as_str().is_empty() {
            self.status = QueryStatus::Failed(String::from_str("SQL is empty"));
            return QueryStart::Refused;
        }
        let conn = copy_connection(&self.connections[i].item);
        let secret = match sec {
            Ok(s) => s,
            Err(e) => {
                if conn.kind == DbKind::Postgres {
                    let secret_ref = match &conn.secret_ref {
                        Some(x) => x.clone(),
                        None => {
                            proof {
                                assert(false);
                            }
                            return QueryStart::Ignored;
                        },
                    };
                    return QueryStart::Prompt { label: conn.name.clone(), secret_ref };
                }
                self.status = QueryStatus::Failed(e);
                return QueryStart::Refused;
            },
        };
        let reuse_client = match &self.client_for {
            Some(c) => str_eq(c.as_str(), id.as_str()),
            None => false,
        };
        self.running = true;
        self.next_cursor = None;
        self.plan = None;
        self.last_sql = Some(String::from_str(sql));
        push_history(&mut self.history, String::from_str(sql), HISTORY_CAP);
        self.query_generation = bump(self.query_generation);
        QueryStart::Start {
            generation: self.query_generation,
            id,
            connection: conn,
            secret,
            reuse_client,
            sql: String::from_str(sql),
        }
    }
    /// Press Run with `sql`. When the selected connection's secret must be read first
    /// ([`lookup_ref`]: only once the cheaper refusals are ruled out), nothing changes
    /// and the reference to look up comes back as `Lookup`; the keyring's answer then
    /// goes to [`DbTabState::resume_run`]. Otherwise the press is as [`run_spec`] says
    /// with no secret, and the keyring is not read.
    pub fn begin_run(&mut self, sql: &str) -> (r: QueryStart)
        ensures
            match lookup_ref(*old(self), !old(self).running && trim_seq(sql@).len() > 0) {
                Some(x) => (r matches QueryStart::Lookup { secret_ref } && secret_ref@ == x)
                    && *final(self) == *old(self),
                None => run_spec(*old(self), *final(self), sql@, Ok(None), r),
            },
    {
        let wanted = !self.running && !trim_string(sql).as_str().is_empty();
        match self.selected_secret_ref(wanted) {
            Some(x) => QueryStart::Lookup { secret_ref: x },
            None => self.run_with_secret(sql, Ok(None)),
        }
    }

    /// Run `sql` with the keyring's answer `lookup` for the reference
    /// [`DbTabState::begin_run`] named: the rest is as [`run_spec`] says for the secret
    /// that answer gives ([`secret_given`]).
    pub fn resume_run(&mut self, sql: &str, lookup: Result<Option<Vec<u8>>, String>) -> (r: QueryStart)
        ensures
            exists|sec: Result<Option<String>, String>|
                secret_view(sec) == secret_given(
                    *old(self),
                    !old(self).running && trim_seq(sql@).len() > 0,
                    lookup,
                ) && #[trigger] run_spec(*old(self), *final(self), sql@, sec, r),
    {
        let ghost before = *self;
        let wanted = !self.running && !trim_string(sql).as_str().is_empty();
        let sec = self.secret_from(wanted, lookup);
        let r = self.run_with_secret(sql, sec);
        assert(run_spec(before, *self, sql@, sec, r));
        r
    }

    /// The reference to look up when `wanted`, as [`lookup_ref`] says.
    pub fn selected_secret_ref(&self, wanted: bool) -> (r: Option<String>)
        ensures
            name_view(r) == lookup_ref(*self, wanted),
    {
        if !wanted {
            return None;
        }
        let id = match &self.active_id {
            Some(id) => id,
            None => {
                return None;
            },
        };
        match find_connection(&self.connections, id.as_str()) {
            Some(i) => {
                proof {
                    lemma_choose_first(self.connections@, id@, i as int);
                }
                copy_opt(&self.connections[i].item.secret_ref)
            },
            None => None,
        }
    }

    /// The secret the keyring's answer gives, as [`secret_given`] says.
    fn secret_from(&self, wanted: bool, lookup: Result<Option<Vec<u8>>, String>) -> (sec: Result<
        Option<String>,
        String,
    >)
        ensures
            secret_view(sec) == secret_given(*self, wanted, lookup),
            lookup_ref(*self, wanted) is None ==> sec matches Ok(None),
    {
        match self.selected_secret_ref(wanted) {
            Some(x) => resolve_secret_lookup(x.as_str(), lookup),
            None => Ok(None),
        }
    }

    /// A page came back: the status reports it, its cursor is the next page's, and it
    /// is what an export writes. (Its rows go to the results grid.)
    pub fn apply_query_page(&mut self, page: QueryPage)
        ensures
            page_applied(*old(self), *final(self), page),
    {
        self.status = QueryStatus::Done {
            duration_ms: page.duration_ms,
            has_more: page.next_cursor.is_some(),
        };
        self.next_cursor = copy_opt(&page.next_cursor);
        self.last_page = Some(page);
    }

    /// A run of generation `generation` for connection `id` finished. Superseded runs
    /// change nothing; the current one ends the run and, on success, the open client
    /// belongs to `id` and the page is applied; a failure goes to the status line.
    /// Says whether it applied.
    pub fn finish_run(&mut self, generation: u64, id: String, outcome: Result<QueryPage, String>) -> (applied: bool)
        ensures
            applied == (generation == old(self).query_generation),
            !applied ==> *final(self) == *old(self),
            applied ==> match outcome {
                Ok(page) => page_applied(
                    DbTabState { running: false, client_for: Some(id), ..*old(self) },
                    *final(self),
                    page,
                ),
                Err(e) => *final(self) == (DbTabState {
                    running: false,
                    status: QueryStatus::Failed(e),
                    ..*old(self)
                }),
            },
    {
        if self.query_generation != generation {
            return false;
        }
        self.running = false;
        match outcome {
            Ok(page) => {
                self.client_for = Some(id);
                self.apply_query_page(page);
            },
            Err(e) => {
                self.status = QueryStatus::Failed(e);
            },
        }
        true
    }

    /// Ask for the next page: nothing while a query runs or without a cursor, a
    /// remembered statement and an open client; otherwise the plan steps aside, the
    /// query generation advances, and the generation, cursor and statement are
    /// returned.
    pub fn begin_next_page(&mut self) -> (r: Option<(u64, String, String)>)
        ensures
            r is None <==> (old(self).running || old(self).next_cursor is None
                || old(self).last_sql is None || old(self).client_for is None),
            r is None ==> *final(self) == *old(self),
            r matches Some((g, cursor, sql)) ==> g == next_gen(old(self).query_generation)
                && Some(cursor) == old(self).next_cursor && Some(sql) == old(self).last_sql
                && *final(self) == (DbTabState {
                running: true,
                plan: None,
                query_generation: next_gen(old(self).query_generation),
                ..*old(self)
            }),
    {
        if self.running || self.client_for.is_none() {
            return None;
        }
        let cursor = match &self.next_cursor {
            Some(c) => c.clone(),
            None => {
                return None;
            },
        };
        let sql = match &self.last_sql {
            Some(q) => q.clone(),
            None => {
                return None;
            },
        };
        self.running = true;
        self.plan = None;
        self.query_generation = bump(self.query_generation);
        Some((self.query_generation, cursor, sql))
    }

    /// A next-page fetch of generation `generation` finished: superseded ones change
    /// nothing; the current one ends the run and applies the page, or shows the
    /// failure. Says whether it applied.
    pub fn finish_next_page(&mut self, generation: u64, outcome: Result<QueryPage, String>) -> (applied: bool)
        ensures
            applied == (generation == old(self).query_generation),
            !applied ==> *final(self) == *old(self),
            applied ==> match outcome {
                Ok(page) => page_applied(
                    DbTabState { running: false, ..*old(self) },
                    *final(self),
                    page,
                ),
                Err(e) => *final(self) == (DbTabState {
                    running: false,
                    status: QueryStatus::Failed(e),
                    ..*old(self)
                }),
            },
    {
        if self.query_generation != generation {
            return false;
        }
        self.running = false;
        match outcome {
            Ok(page) => {
                self.apply_query_page(page);
            },
            Err(e) => {
                self.status = QueryStatus::Failed(e);
            },
        }
        true
    }
    /// Press Explain with `sql`, given the engine's plan support and the outcome of the
    /// secret lookup, as [`explain_spec`] says.
    pub fn explain_with_secret(
        &mut self,
        sql: &str,
        support: &ExplainSupport,
        sec: Result<Option<String>, String>,
    ) -> (r: QueryStart)
        ensures
            explain_spec(*old(self), *final(self), sql@, *support, sec, r),
    {
        if self.running {
            return QueryStart::Ignored;
        }
        match support {
            ExplainSupport::NoConnection => {
                self.status = QueryStatus::Failed(String::from_str("select a connection first"));
                return QueryStart::Refused;
            },
            ExplainSupport::Unsupported(reason) => {
                let m = match reason {
                    Some(m) => m.clone(),
                    None => String::from_str("this engine has no query planner"),
                };
                self.status = QueryStatus::Failed(m);
                return QueryStart::Refused;
            },
            ExplainSupport::Keyword(_) => {},
        }
        let id = match &self.active_id {
            Some(id) => id.clone(),
            None => {
                return QueryStart::Ignored;
            },
        };
        let i = match find_connection(&self.connections, id.as_str()) {
            Some(i) => i,
            None => {
                self.status = QueryStatus::Failed(
                    String::from_str("selected connection no longer exists"),
                );
                return QueryStart::Refused;
            },
        };
        proof {
            lemma_choose_first(self.connections@, id@, i as int);
        }
        let t = trim_string(sql);
        if t.as_str().is_empty() {
            self.status = QueryStatus::Failed(String::from_str("SQL is empty"));
            return QueryStart::Refused;
        }
        let secret = match sec {
            Ok(s) => s,
            Err(e) => {
                self.status = QueryStatus::Failed(e);
                return QueryStart::Refused;
            },
        };
        let conn = copy_connection(&self.connections[i].item);
        let reuse_client = match &self.client_for {
            Some(c) => str_eq(c.as_str(), id.as_str()),
            None => false,
        };
        self.running = true;
        self.query_generation = bump(self.query_generation);
        QueryStart::Start {
            generation: self.query_generation,
            id,
            connection: conn,
            secret,
            reuse_client,
            sql: String::from_str(sql),
        }
    }

    /// Press Explain with `sql`. When the selected connection's secret must be read
    /// first ([`lookup_ref`]: only once the other refusals are ruled out), nothing
    /// changes and the reference comes back as `Lookup`, for
    /// [`DbTabState::resume_explain`]; otherwise it is as [`explain_spec`] says with no
    /// secret, and the keyring is not read.
    pub fn begin_explain(&mut self, sql: &str, support: &ExplainSupport) -> (r: QueryStart)
        ensures
            match lookup_ref(
                *old(self),
                !old(self).running && support is Keyword && trim_seq(sql@).len() > 0,
            ) {
                Some(x) => (r matches QueryStart::Lookup { secret_ref } && secret_ref@ == x)
                    && *final(self) == *old(self),
                None => explain_spec(*old(self), *final(self), sql@, *support, Ok(None), r),
            },
    {
        let keyword = match support {
            ExplainSupport::Keyword(_) => true,
            _ => false,
        };
        let wanted = !self.running && keyword && !trim_string(sql).as_str().is_empty();
        match self.selected_secret_ref(wanted) {
            Some(x) => QueryStart::Lookup { secret_ref: x },
            None => self.explain_with_secret(sql, support, Ok(None)),
        }
    }

    /// Explain `sql` with the keyring's answer `lookup` for the reference
    /// [`DbTabState::begin_explain`] named: as [`explain_spec`] says for the secret that
    /// answer gives.
    pub fn resume_explain(&mut self, sql: &str, support: &ExplainSupport, lookup: Result<Option<Vec<u8>>, String>) -> (r:
        QueryStart)
        ensures
            exists|sec: Result<Option<String>, String>|
                secret_view(sec) == secret_given(
                    *old(self),
                    !old(self).running && support is Keyword && trim_seq(sql@).len() > 0,
                    lookup,
                ) && #[trigger] explain_spec(*old(self), *final(self), sql@, *support, sec, r),
    {
        let ghost before = *self;
        let keyword = match support {
            ExplainSupport::Keyword(_) => true,
            _ => false,
        };
        let wanted = !self.running && keyword && !trim_string(sql).as_str().is_empty();
        let sec = self.secret_from(wanted, lookup);
        let r = self.explain_with_secret(sql, support, sec);
        assert(explain_spec(before, *self, sql@, *support, sec, r));
        r
    }

    /// An explain of generation `generation` for connection `id` finished: superseded
    /// ones change nothing; the current one ends the run and, on success, the open
    /// client belongs to `id`, the plan (under `keyword`, one line per plan row) is
    /// shown and the status reports its duration — the page behind it, its cursor and
    /// what an export writes are left alone. Says whether it applied.
    pub fn finish_explain(
        &mut self,
        generation: u64,
        id: String,
        keyword: String,
        outcome: Result<QueryPage, String>,
    ) -> (applied: bool)
        ensures
            applied == (generation == old(self).query_generation),
            !applied ==> *final(self) == *old(self),
            applied ==> match outcome {
                Ok(page) => final(self).plan matches Some(p) && p.keyword == keyword
                    && p.lines@.len() == page.rows@.len() && (forall|k: int|
                    0 <= k < p.lines@.len() ==> (#[trigger] p.lines@[k])@ == join_with(
                        page.rows@[k]@,
                        "  "@,
                    )) && *final(self) == (DbTabState {
                    running: false,
                    client_for: Some(id),
                    plan: final(self).plan,
                    status: QueryStatus::Done { duration_ms: page.duration_ms, has_more: false },
                    ..*old(self)
                }),
                Err(e) => *final(self) == (DbTabState {
                    running: false,
                    status: QueryStatus::Failed(e),
                    ..*old(self)
                }),
            },
    {
        if self.query_generation != generation {
            return false;
        }
        self.running = false;
        match outcome {
            Ok(page) => {
                self.client_for = Some(id);
                let lines = plan_lines(&page);
                self.plan = Some(PlanView { keyword, lines });
                self.status = QueryStatus::Done { duration_ms: page.duration_ms, has_more: false };
            },
            Err(e) => {
                self.status = QueryStatus::Failed(e);
            },
        }
        true
    }

    /// Refresh the schema, given the outcome of the secret lookup, as [`schema_spec`]
    /// says.
    pub fn schema_with_secret(&mut self, sec: Result<Option<String>, String>) -> (r: SchemaStart)
        requires
            has_selection(*old(self)) && sec is Err && selected_conn(*old(self)).kind
                == DbKind::Postgres ==> selected_conn(*old(self)).secret_ref is Some,
        ensures
            schema_spec(*old(self), *final(self), sec, r),
    {
        let id = match &self.active_id {
            Some(id) => id.clone(),
            None => {
                return SchemaStart::Ignored;
            },
        };
        let i = match find_connection(&self.connections, id.as_str()) {
            Some(i) => i,
            None => {
                return SchemaStart::Ignored;
            },
        };
        proof {
            lemma_choose_first(self.connections@, id@, i as int);
        }
        let conn = copy_connection(&self.connections[i].item);
        let secret = match sec {
            Ok(s) => s,
            Err(e) => {
                if conn.kind == DbKind::Postgres {
                    return match &conn.secret_ref {
                        Some(x) => SchemaStart::Prompt { label: conn.name.clone(), secret_ref: x.clone() },
                        None => {
                            proof {
                                assert(false);
                            }
                            SchemaStart::Ignored
                        },
                    };
                }
                self.schema_error = Some(e);
                return SchemaStart::Refused;
            },
        };
        let reuse_client = match &self.client_for {
            Some(c) => str_eq(c.as_str(), id.as_str()),
            None => false,
        };
        self.schema_loading = true;
        self.schema_error = None;
        self.schema_generation = bump(self.schema_generation);
        SchemaStart::Start {
            generation: self.schema_generation,
            id,
            connection: conn,
            secret,
            reuse_client,
        }
    }

    /// Refresh the schema of the selected connection. When its secret must be read
    /// first ([`lookup_ref`]), nothing changes and the reference comes back as
    /// `Lookup`, for [`DbTabState::resume_schema_refresh`]; otherwise it is as
    /// [`schema_spec`] says with no secret, and the keyring is not read.
    pub fn begin_schema_refresh(&mut self) -> (r: SchemaStart)
        ensures
            match lookup_ref(*old(self), true) {
                Some(x) => (r matches SchemaStart::Lookup { secret_ref } && secret_ref@ == x)
                    && *final(self) == *old(self),
                None => schema_spec(*old(self), *final(self), Ok(None), r),
            },
    {
        match self.selected_secret_ref(true) {
            Some(x) => SchemaStart::Lookup { secret_ref: x },
            None => self.schema_with_secret(Ok(None)),
        }
    }

    /// Refresh the schema with the keyring's answer `lookup` for the reference
    /// [`DbTabState::begin_schema_refresh`] named: as [`schema_spec`] says for the
    /// secret that answer gives.
    pub fn resume_schema_refresh(&mut self, lookup: Result<Option<Vec<u8>>, String>) -> (r: SchemaStart)
        ensures
            exists|sec: Result<Option<String>, String>|
                secret_view(sec) == secret_given(*old(self), true, lookup) && #[trigger] schema_spec(
                    *old(self),
                    *final(self),
                    sec,
                    r,
                ),
    {
        let ghost before = *self;
        let sec = self.secret_from(true, lookup);
        let r = self.schema_with_secret(sec);
        assert(schema_spec(before, *self, sec, r));
        r
    }

    /// A schema fetch of generation `generation` for connection `id` finished:
    /// superseded ones change nothing; the current one ends the loading and, on
    /// success, the open client belongs to `id` and the schema is shown; a failure
    /// becomes the schema error. Says whether it applied.
    pub fn finish_schema(&mut self, generation: u64, id: String, outcome: Result<SchemaInfo, String>) -> (applied: bool)
        ensures
            applied == (generation == old(self).schema_generation),
            !applied ==> *final(self) == *old(self),
            applied ==> match outcome {
                Ok(schema) => *final(self) == (DbTabState {
                    schema_loading: false,
                    client_for: Some(id),
                    schema: Some(schema),
                    ..*old(self)
                }),
                Err(e) => *final(self) == (DbTabState {
                    schema_loading: false,
                    schema_error: Some(e),
                    ..*old(self)
                }),
            },
    {
        if self.schema_generation != generation {
            return false;
        }
        self.schema_loading = false;
        match outcome {
            Ok(schema) => {
                self.client_for = Some(id);
                self.schema = Some(schema);
            },
            Err(e) => {
                self.schema_error = Some(e);
            },
        }
        true
    }

    /// Show or hide a table's columns in the schema tree.
    pub fn toggle_schema_table(&mut self, display_name: &str)
        ensures
            toggled(views(old(self).schema_expanded@), views(final(self).schema_expanded@), display_name@),
            *final(self) == (DbTabState { schema_expanded: final(self).schema_expanded, ..*old(self) }),
    {
        toggle_collapsed(&mut self.schema_expanded, display_name);
    }

    /// Collapse or expand a folder of the connections panel.
    pub fn toggle_conn_folder(&mut self, name: &str)
        ensures
            toggled(views(old(self).collapsed_folders@), views(final(self).collapsed_folders@), name@),
            *final(self) == (DbTabState { collapsed_folders: final(self).collapsed_folders, ..*old(self) }),
    {
        toggle_collapsed(&mut self.collapsed_folders, name);
    }

    /// A column click in the diagram: the `WHERE` scaffold for the editor, with a
    /// notice saying what to do with it.
    pub fn open_column_filter(&mut self, table: &str, column: &str) -> (stmt: String)
        ensures
            stmt@ == "SELECT * FROM "@ + quote_ident_spec(table@) + " WHERE "@ + quote_ident_spec(
                column@,
            ) + " = "@,
            final(self).notice matches Some(n) && n@
                == "filter scaffold from diagram — complete the value and Run"@,
            *final(self) == (DbTabState { notice: final(self).notice, ..*old(self) }),
    {
        self.notice = Some(String::from_str("filter scaffold from diagram — complete the value and Run"));
        where_filter_scaffold(table, column)
    }

    /// Start renaming connection `id` of layer `origin`, the field seeded with its
    /// name (or its id when the name is empty); a folder edit in progress is dropped.
    pub fn begin_rename(&mut self, id: String, origin: Scope, current_name: &str)
        ensures
            final(self).folder_editing is None,
            final(self).renaming matches Some(e) && e.id == id && e.origin == origin && e.text@
                == (if current_name@.len() == 0 {
                id@
            } else {
                current_name@
            }),
            *final(self) == (DbTabState {
                folder_editing: None,
                renaming: final(self).renaming,
                ..*old(self)
            }),
    {
        self.folder_editing = None;
        let text = if current_name.is_empty() {
            id.clone()
        } else {
            String::from_str(current_name)
        };
        self.renaming = Some(InlineEdit { id, origin, text });
    }

    /// F2: rename the selected connection; nothing without one (or when it is gone).
    /// Says whether a rename started.
    pub fn begin_rename_active(&mut self) -> (started: bool)
        ensures
            started == has_selection(*old(self)),
            !started ==> *final(self) == *old(self),
            started ==> ({
                let c = old(self).connections@[choose|i: int|
                    first_with_id(old(self).connections@, old(self).active_id->Some_0@, i)];
                &&& final(self).folder_editing is None
                &&& final(self).renaming matches Some(e) && e.id == c.item.id && e.origin
                    == c.origin && e.text@ == (if c.item.name@.len() == 0 {
                    c.item.id@
                } else {
                    c.item.name@
                })
                &&& *final(self) == (DbTabState {
                    folder_editing: None,
                    renaming: final(self).renaming,
                    ..*old(self)
                })
            }),
    {
        let i = match &self.active_id {
            Some(id) => match find_connection(&self.connections, id.as_str()) {
                Some(i) => {
                    proof {
                        lemma_choose_first(self.connections@, id@, i as int);
                    }
                    i
                },
                None => {
                    return false;
                },
            },
            None => {
                return false;
            },
        };
        let id = self.connections[i].item.id.clone();
        let origin = crate::host_form::copy_scope(&self.connections[i].origin);
        let name = self.connections[i].item.name.clone();
        self.begin_rename(id, origin, name.as_str());
        true
    }

    /// Enter on a rename: nothing in progress; an empty trimmed name keeps the rename
    /// open and is refused; otherwise the rename closes and its write is returned.
    pub fn commit_rename(&mut self) -> (r: RenameCommit)
        ensures
            match old(self).renaming {
                None => r is NotRenaming && *final(self) == *old(self),
                Some(e) => if trim_seq(e.text@).len() == 0 {
                    (r matches RenameCommit::Invalid(m) && m@ == "name must not be empty"@)
                        && *final(self) == *old(self)
                } else {
                    (r matches RenameCommit::Write { origin, id, name } && origin == e.origin
                        && id == e.id && name@ == trim_seq(e.text@)) && *final(self) == (
                    DbTabState { renaming: None, ..*old(self) })
                },
            },
    {
        let name = match &self.renaming {
            None => {
                return RenameCommit::NotRenaming;
            },
            Some(e) => match rename_value(e.text.as_str()) {
                Ok(n) => n,
                Err(m) => {
                    return RenameCommit::Invalid(m);
                },
            },
        };
        match self.renaming.take() {
            Some(e) => RenameCommit::Write { origin: e.origin, id: e.id, name },
            None => RenameCommit::NotRenaming,
        }
    }

    /// Escape on a rename: it closes, the stored name untouched.
    pub fn cancel_rename(&mut self)
        ensures
            *final(self) == (DbTabState { renaming: None, ..*old(self) }),
    {
        self.renaming = None;
    }

    /// Start the folder edit of connection `id` of layer `origin`, seeded with its
    /// folder (empty when ungrouped); a rename in progress is dropped.
    pub fn begin_folder_edit(&mut self, id: String, origin: Scope, current: Option<&str>)
        ensures
            final(self).renaming is None,
            final(self).folder_editing matches Some(e) && e.id == id && e.origin == origin
                && e.text@ == match current {
                Some(f) => f@,
                None => Seq::<char>::empty(),
            },
            *final(self) == (DbTabState {
                renaming: None,
                folder_editing: final(self).folder_editing,
                ..*old(self)
            }),
    {
        self.renaming = None;
        let text = match current {
            Some(f) => String::from_str(f),
            None => String::new(),
        };
        self.folder_editing = Some(InlineEdit { id, origin, text });
    }

    /// Enter on a folder edit: it closes and returns its write — the trimmed folder,
    /// or none for a blank one (back to the ungrouped top level). `None` when no edit
    /// was in progress.
    pub fn commit_folder_edit(&mut self) -> (r: Option<(Scope, String, Option<String>)>)
        ensures
            match old(self).folder_editing {
                None => r is None && *final(self) == *old(self),
                Some(e) => (r matches Some((origin, id, folder)) && origin == e.origin && id
                    == e.id && name_view(folder) == (if trim_seq(e.text@).len() == 0 {
                    None
                } else {
                    Some(trim_seq(e.text@))
                })) && *final(self) == (DbTabState { folder_editing: None, ..*old(self) }),
            },
    {
        match self.folder_editing.take() {
            None => None,
            Some(e) => {
                let folder = folder_value(e.text.as_str());
                Some((e.origin, e.id, folder))
            },
        }
    }

    /// Escape on a folder edit: it closes, the stored folder untouched.
    pub fn cancel_folder_edit(&mut self)
        ensures
            *final(self) == (DbTabState { folder_editing: None, ..*old(self) }),
    {
        self.folder_editing = None;
    }

    /// A click on a row's delete: the second click on the armed row executes (and
    /// disarms); any other click arms this row. Says whether to delete.
    pub fn delete_click(&mut self, id: String, origin: Scope) -> (execute: bool)
        ensures
            execute == (old(self).armed_delete matches Some((a, o)) && a@ == id@ && scope_view(o)
                == scope_view(origin)),
            execute ==> *final(self) == (DbTabState { armed_delete: None, ..*old(self) }),
            !execute ==> *final(self) == (DbTabState {
                armed_delete: Some((id, origin)),
                ..*old(self)
            }),
    {
        if delete_click_executes(&self.armed_delete, id.as_str(), &origin) {
            self.armed_delete = None;
            true
        } else {
            self.armed_delete = Some((id, origin));
            false
        }
    }

    /// Pick an export format: the menu closes and, with a page on show, the file's
    /// label (the selected connection's name, or `query`) and its CSV text are returned
    /// for writing; without one the notice says there is nothing to export.
    pub fn export(&mut self, format: ExportFormat) -> (r: Option<(String, String)>)
        ensures
            !final(self).export_menu_open,
            match old(self).last_page {
                None => r is None && (final(self).notice matches Some(n) && n@
                    == "nothing to export — run a query first"@) && *final(self) == (DbTabState {
                    export_menu_open: false,
                    notice: final(self).notice,
                    ..*old(self)
                }),
                Some(page) => (r matches Some((label, csv)) && csv@ == page_csv(page) && label@
                    == (if has_selection(*old(self)) {
                    selected_conn(*old(self)).name@
                } else {
                    "query"@
                })) && *final(self) == (DbTabState { export_menu_open: false, ..*old(self) }),
            },
    {
        self.export_menu_open = false;
        match format {
            ExportFormat::Csv => {},
        }
        let csv = match &self.last_page {
            None => {
                self.notice = Some(String::from_str("nothing to export — run a query first"));
                return None;
            },
            Some(page) => page_to_csv(page),
        };
        let label = match &self.active_id {
            Some(id) => match find_connection(&self.connections, id.as_str()) {
                Some(i) => {
                    proof {
                        lemma_choose_first(self.connections@, id@, i as int);
                    }
                    self.connections[i].item.name.clone()
                },
                None => String::from_str("query"),
            },
            None => String::from_str("query"),
        };
        Some((label, csv))
    }

    /// The export was written (to this path) or failed (with this message): the
    /// notice says which.
    pub fn finish_export(&mut self, result: Result<String, String>)
        ensures
            final(self).notice matches Some(n) && n@ == match result {
                Ok(path) => "✓ exported to "@ + path@,
                Err(e) => "✗ export failed: "@ + e@,
            },
            *final(self) == (DbTabState { notice: final(self).notice, ..*old(self) }),
    {
        self.notice = Some(export_notice(result));
    }
}

// ---- saving a submission -----------------------------------------------------------

/// The first half of saving a form's submission: the add-mode guard — given whether
/// the target layer already holds the id (or the store's error reading it) and the
/// layer's label — then the keyring plan, staged. Returns the record to write, carrying
/// the staged reference, and the staging, whose keyring write (if any) is made before
/// the record's, its answer going to [`crate::secrets::after_put`]. A refusal stages
/// nothing and asks nothing of the keyring.
pub fn prepare_db_save(
    sub: &Submission,
    target_holds: Result<bool, String>,
    target_label: &str,
    has_password_field: bool,
) -> (r: Result<(DbConnection, Staging), String>)
    ensures
        match target_holds {
            Err(e) => r == Err::<(DbConnection, Staging), String>(e),
            Ok(holds) => if sub.old is None && holds {
                r matches Err(e) && e@ == "a connection with this name exists in "@
                    + target_label@ + " — edit it instead"@
            } else {
                let plan = plan_spec(sub.old, has_password_field, sub.secret is Some);
                let staged = match r {
                    Ok((c, st)) => Ok::<Staging, String>(st),
                    Err(e) => Err::<Staging, String>(e),
                };
                staged_as(plan, "db"@, sub.connection.name@, name_view(sub.secret), staged) && (
                r matches Ok((c, st)) ==> c == (DbConnection {
                    secret_ref: st.staged.secret_ref,
                    ..sub.connection
                }))
            },
        },
{
    let holds = match target_holds {
        Ok(h) => h,
        Err(e) => {
            return Err(e);
        },
    };
    match add_guard(sub.old.is_some(), holds, target_label) {
        Ok(()) => {},
        Err(e) => {
            return Err(e);
        },
    }
    let plan = plan_secret(
        match &sub.old {
            Some(c) => Some(c),
            None => None,
        },
        has_password_field,
        sub.secret.is_some(),
    );
    let secret = match &sub.secret {
        Some(x) => Some(x.as_str()),
        None => None,
    };
    assert(opt_view(secret) == name_view(sub.secret));
    let staging = match stage_secret(&plan, sub.connection.name.as_str(), secret) {
        Ok(st) => st,
        Err(e) => {
            return Err(e);
        },
    };
    let mut connection = copy_connection(&sub.connection);
    connection.secret_ref = copy_opt(&staging.staged.secret_ref);
    Ok((connection, staging))
}

/// A connection row's two lines: its title — the name, or the id when the name is
/// empty — and its subtitle `<engine> · <dsn>`, given the engine's label.
pub fn connection_row_texts(conn: &DbConnection, kind_label: &str) -> (r: (String, String))
    ensures
        r.0@ == (if conn.name@.len() == 0 {
            conn.id@
        } else {
            conn.name@
        }),
        r.1@ == kind_label@ + " · "@ + conn.dsn@,
{
    let title = if conn.name.as_str().is_empty() {
        conn.id.clone()
    } else {
        conn.name.clone()
    };
    let head = cat(kind_label, " · ");
    (title, cat(head.as_str(), conn.dsn.as_str()))
}

/// The keyring id the second half of a save deletes: after a failed write, the freshly
/// minted id (a rollback, so none is orphaned); after a durable write, the superseded
/// id. The old secret is never deleted before its replacement is durable.
pub fn secret_to_delete(staged: &StagedSecret, write_ok: bool) -> (id: Option<String>)
    ensures
        id == (if write_ok {
            staged.delete_after_write
        } else if staged.minted {
            staged.secret_ref
        } else {
            None
        }),
{
    if write_ok {
        copy_opt(&staged.delete_after_write)
    } else if staged.minted {
        copy_opt(&staged.secret_ref)
    } else {
        None
    }
}

/// The warning a durable write carries when deleting the superseded secret failed.
pub fn cleanup_warning(deleted: Result<(), String>) -> (w: Option<String>)
    ensures
        match deleted {
            Ok(()) => w is None,
            Err(e) => w matches Some(m) && m@ == "saved, but deleting the old secret failed: "@ + e@,
        },
{
    match deleted {
        Ok(()) => None,
        Err(e) => Some(cat("saved, but deleting the old secret failed: ", e.as_str())),
    }
}

/// The second half, once the store write is done and the keyring has answered the
/// delete of [`secret_to_delete`] (`deleted`; `None` when there was nothing to
/// delete): a failed write reports the store's message (the rollback's answer is
/// ignored); a durable write succeeds, with the warning of [`cleanup_warning`] when the
/// delete failed.
pub fn finish_db_save(write: Result<(), String>, deleted: Option<Result<(), String>>) -> (r: Result<
    Option<String>,
    String,
>)
    ensures
        match write {
            Err(e) => r == Err::<Option<String>, String>(e),
            Ok(()) => match deleted {
                None => r matches Ok(None),
                Some(Ok(())) => r matches Ok(None),
                Some(Err(e)) => r matches Ok(Some(m)) && m@ == "saved, but deleting the old secret failed: "@
                    + e@,
            },
        },
{
    match write {
        Err(e) => Err(e),
        Ok(()) => match deleted {
            None => Ok(None),
            Some(d) => Ok(cleanup_warning(d)),
        },
    }
}

/// A switch of connection strands the work in flight: [`DbTabState::select_connection`]
/// moves both generations on, so a query, page, explain or schema fetch started before
/// it — which carries the old generation — is refused by its `finish_*`, and its result
/// never lands under the new selection.
pub proof fn law_a_switch_strands_work_in_flight(before: DbTabState, after: DbTabState)
    requires
        after.query_generation == next_gen(before.query_generation),
        after.schema_generation == next_gen(before.schema_generation),
    ensures
        after.query_generation != before.query_generation,
        after.schema_generation != before.schema_generation,
{
}

/// What the results area shows.
#[derive(Clone, Copy, Debug, PartialEq, Eq, Structural)]
pub enum ResultsPane {
    /// The plan pane, while a plan is up.
    Plan,
    /// No connection exists yet: the invitation to add one.
    NoConnections,
    /// Connections exist but none is selected.
    NoSelection,
    /// Selected, but nothing run yet.
    NoResults,
    /// The results grid.
    Grid,
}

impl DbTabState {
    /// The toolbar's name for the selected connection: its name (its id when the name
    /// is empty, or when the row is gone), or `no connection selected`.
    pub fn active_label(&self) -> (r: String)
        ensures
            match self.active_id {
                None => r@ == "no connection selected"@,
                Some(id) => if has_id(self.connections@, id@) {
                    let c = selected_conn(*self);
                    r@ == (if c.name@.len() == 0 {
                        c.id@
                    } else {
                        c.name@
                    })
                } else {
                    r@ == id@
                },
            },
    {
        match &self.active_id {
            None => String::from_str("no connection selected"),
            Some(id) => match find_connection(&self.connections, id.as_str()) {
                Some(i) => {
                    proof {
                        lemma_choose_first(self.connections@, id@, i as int);
                    }
                    let c = &self.connections[i].item;
                    if c.name.as_str().is_empty() {
                        c.id.clone()
                    } else {
                        c.name.clone()
                    }
                },
                None => id.clone(),
            },
        }
    }

    /// The query pane's count, given how many rows the grid shows of its page and the
    /// toolbar's count texts for the page's rows and for the plan's lines (such as
    /// `340 rows`): nothing until a run succeeds; with a plan up, `<plan lines> · <ms>
    /// ms`; otherwise `<rows> · <ms> ms`, with `<shown> of ` before it while the filter
    /// hides rows.
    pub fn count_label(&self, shown: usize, total: usize, rows_text: &str, plan_text: &str) -> (r: Option<String>)
        ensures
            match self.status {
                QueryStatus::Done { duration_ms, .. } => r matches Some(l) && l@ == (if self.plan is Some {
                    plan_text@
                } else if shown != total {
                    decimal(shown as nat) + " of "@ + rows_text@
                } else {
                    rows_text@
                }) + " · "@ + decimal(duration_ms as nat) + " ms"@,
                _ => r is None,
            },
    {
        match &self.status {
            QueryStatus::Done { duration_ms, .. } => {
                let mut l = String::new();
                if self.plan.is_some() {
                    l.append(plan_text);
                } else if shown != total {
                    push_decimal(&mut l, shown as u128);
                    l.append(" of ");
                    l.append(rows_text);
                } else {
                    l.append(rows_text);
                }
                l.append(" · ");
                push_decimal(&mut l, *duration_ms as u128);
                l.append(" ms");
                Some(l)
            },
            _ => None,
        }
    }

    /// The Explain button: whether it is disabled, and its tooltip. Without a selected
    /// connection, or with an engine that has no planner, it is disabled and says why;
    /// otherwise it names the statement it runs, and is disabled only while a query
    /// is in flight.
    pub fn explain_button(&self, support: &ExplainSupport) -> (r: (bool, String))
        ensures
            match support {
                ExplainSupport::NoConnection => r.0 && r.1@ == "select a connection first"@,
                ExplainSupport::Unsupported(Some(reason)) => r.0 && r.1@ == reason@,
                ExplainSupport::Unsupported(None) => r.0 && r.1@ == "no query plan available"@,
                ExplainSupport::Keyword(k) => r.0 == self.running && r.1@ == "show the query plan ("@
                    + k@ + ")"@,
            },
    {
        match support {
            ExplainSupport::NoConnection => (true, String::from_str("select a connection first")),
            ExplainSupport::Unsupported(Some(reason)) => (true, reason.clone()),
            ExplainSupport::Unsupported(None) => (true, String::from_str("no query plan available")),
            ExplainSupport::Keyword(k) => {
                let head = cat("show the query plan (", k.as_str());
                (self.running, cat(head.as_str(), ")"))
            },
        }
    }

    /// The relationships window's title, `None` while no schema is loaded (the
    /// window does not open): it names the selected connection by its name (its id
    /// when the name is empty), or `connection` when none is selected or the row is
    /// gone.
    pub fn diagram_window_title(&self) -> (r: Option<String>)
        ensures
            self.schema is None <==> r is None,
            r matches Some(t) ==> t@ == "sid — relationships · "@ + match self.active_id {
                Some(id) => if has_id(self.connections@, id@) {
                    let c = selected_conn(*self);
                    if c.name@.len() == 0 {
                        c.id@
                    } else {
                        c.name@
                    }
                } else {
                    "connection"@
                },
                None => "connection"@,
            },
    {
        if self.schema.is_none() {
            return None;
        }
        let label = match &self.active_id {
            None => String::from_str("connection"),
            Some(id) => match find_connection(&self.connections, id.as_str()) {
                Some(i) => {
                    proof {
                        lemma_choose_first(self.connections@, id@, i as int);
                    }
                    let c = &self.connections[i].item;
                    if c.name.as_str().is_empty() {
                        c.id.clone()
                    } else {
                        c.name.clone()
                    }
                },
                None => String::from_str("connection"),
            },
        };
        Some(cat("sid — relationships · ", label.as_str()))
    }

    /// The state mark of connection `id`'s row: live when the open client is its own;
    /// only the selected row shows the work in flight (a query or schema fetch) or the
    /// last schema failure.
    pub fn row_state(&self, id: &str) -> (s: ConnectionState)
        ensures
            ({
                let live = name_view(self.client_for) == Some(id@);
                let active = name_view(self.active_id) == Some(id@);
                s == (if live {
                    ConnectionState::Live
                } else if active && (self.running || self.schema_loading) {
                    ConnectionState::Connecting
                } else if active && self.schema_error is Some {
                    ConnectionState::Failed
                } else {
                    ConnectionState::Offline
                })
            }),
    {
        let live = match &self.client_for {
            Some(c) => str_eq(c.as_str(), id),
            None => false,
        };
        let active = match &self.active_id {
            Some(a) => str_eq(a.as_str(), id),
            None => false,
        };
        connection_dot(live, active, self.running || self.schema_loading, self.schema_error.is_some())
    }

    /// What the results area shows: the plan while one is up; without a selection, the
    /// invitation to add a connection (none exist) or to pick one; with one but nothing
    /// run and nothing running, the hint to run a query; else the grid.
    pub fn results_pane(&self) -> (p: ResultsPane)
        ensures
            p == (if self.plan is Some {
                ResultsPane::Plan
            } else if self.active_id is None {
                if self.connections@.len() == 0 {
                    ResultsPane::NoConnections
                } else {
                    ResultsPane::NoSelection
                }
            } else if self.last_page is None && !self.running {
                ResultsPane::NoResults
            } else {
                ResultsPane::Grid
            }),
    {
        if self.plan.is_some() {
            ResultsPane::Plan
        } else if self.active_id.is_none() {
            if self.connections.len() == 0 {
                ResultsPane::NoConnections
            } else {
                ResultsPane::NoSelection
            }
        } else if self.last_page.is_none() && !self.running {
            ResultsPane::NoResults
        } else {
            ResultsPane::Grid
        }
    }
}

/// Whether a row offers "promote to global": rows from a workspace layer only.
pub fn can_promote(origin: &Scope) -> (b: bool)
    ensures
        b == origin is Workspace,
{
    match origin {
        Scope::Workspace(_) => true,
        Scope::Global => false,
    }
}

/// Whether a row offers "move into the workspace": global rows, while a workspace scope
/// is active.
pub fn can_demote(origin: &Scope, active_scope: &Scope) -> (b: bool)
    ensures
        b == (origin is Global && active_scope is Workspace),
{
    match (origin, active_scope) {
        (Scope::Global, Scope::Workspace(_)) => true,
        _ => false,
    }
}

/// The label a workspace row's layer chip carries: the label of the first known scope
/// naming that workspace, or `workspace`; `None` for a global row.
pub fn workspace_chip_label(origin: &Scope, scopes: &Vec<(Scope, String)>) -> (r: Option<String>)
    ensures
        match *origin {
            Scope::Global => r is None,
            Scope::Workspace(id) => r matches Some(l) && ((exists|k: int|
                0 <= k < scopes@.len() && scope_view(scopes@[k].0) == Some(id@) && l@
                    == scopes@[k].1@ && forall|j: int|
                    0 <= j < k ==> scope_view(#[trigger] scopes@[j].0) != Some(id@)) || (l@
                == "workspace"@ && forall|j: int|
                0 <= j < scopes@.len() ==> scope_view(#[trigger] scopes@[j].0) != Some(id@))),
        },
{
    let id = match origin {
        Scope::Global => {
            return None;
        },
        Scope::Workspace(id) => id,
    };
    let mut k: usize = 0;
    while k < scopes.len()
        invariant
            k <= scopes.len(),
            *origin == Scope::Workspace(*id),
            forall|j: int| 0 <= j < k ==> scope_view(#[trigger] scopes@[j].0) != Some(id@),
        decreases scopes.len() - k,
    {
        let hit = match &scopes[k].0 {
            Scope::Workspace(w) => str_eq(w.as_str(), id.as_str()),
            Scope::Global => false,
        };
        if hit {
            return Some(scopes[k].1.clone());
        }
        k = k + 1;
    }
    Some(String::from_str("workspace"))
}

} // verus!
