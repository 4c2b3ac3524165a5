//! The saved records the screens read and write: SSH hosts and database
//! connections, the layer (global or a workspace) each lives in, and the user's
//! default for where new records go.

use vstd::prelude::*;

verus! {

/// Which layer of the store a record lives in.
#[derive(Clone, Debug, PartialEq, Eq)]
pub enum Scope {
    /// The machine-global store — everywhere, never lost.
    Global,
    /// A workspace's committed config, named by the workspace id.
    Workspace(String),
}

/// Where the add forms preselect saving to.
#[derive(Clone, Copy, Debug, PartialEq, Eq, Structural)]
pub enum DefaultScope {
    /// Preselect nothing; the user chooses.
    Ask,
    /// Preselect the global store.
    Global,
    /// Preselect the active workspace (when one is focused).
    Workspace,
}

/// How an SSH host authenticates.
#[derive(Clone, Debug, PartialEq, Eq)]
pub enum AuthMethod {
    /// The running SSH agent.
    Agent,
    /// A login password.
    Password,
    /// A private key file (with an optional passphrase).
    Key { path: String },
}

/// A saved SSH host.
#[derive(Clone, Debug, PartialEq, Eq)]
pub struct Host {
    pub alias: String,
    pub user: String,
    pub host: String,
    pub port: u16,
    /// The keyring id of its stored secret, if any.
    pub secret_ref: Option<String>,
    pub auth: AuthMethod,
    pub folder: Option<String>,
}

/// The database engines.
#[derive(Clone, Copy, Debug, PartialEq, Eq, Structural)]
pub enum DbKind {
    Postgres,
    Sqlite,
    Redb,
}

/// A saved database connection.
#[derive(Clone, Debug, PartialEq, Eq)]
pub struct DbConnection {
    pub id: String,
    pub dsn: String,
    /// The keyring id of its stored password, if any.
    pub secret_ref: Option<String>,
    pub kind: DbKind,
    pub name: String,
    /// The connections panel folder it is grouped under, if any.
    pub folder: Option<String>,
}

/// What kind of input a connection field takes.
#[derive(Clone, Debug, PartialEq, Eq)]
pub enum ConnFieldKind {
    /// Free text.
    Text,
    /// A TCP port, 1–65535.
    Port,
    /// A filesystem path.
    Path,
    /// A secret: masked, never written into the DSN, never read back.
    Password,
    /// On or off.
    Bool,
    /// One of a fixed list of options.
    Choice { options: Vec<String> },
}

/// One field an engine's connection form asks for.
#[derive(Clone, Debug, PartialEq, Eq)]
pub struct ConnField {
    /// The key the field's value is collected under.
    pub key: String,
    /// The label shown to the user (and named in validation messages).
    pub label: String,
    pub kind: ConnFieldKind,
    /// The value a fresh form starts with, if any.
    pub default: Option<String>,
}

impl ConnField {
    /// A field with no default value.
    pub fn new(key: &str, label: &str, kind: ConnFieldKind) -> (f: ConnField)
        ensures
            f.key@ == key@,
            f.label@ == label@,
            f.kind == kind,
            f.default is None,
    {
        ConnField { key: String::from_str(key), label: String::from_str(label), kind, default: None }
    }
}

/// A record as the composed store hands it out: the item and the layer it came from.
#[derive(Clone, Debug, PartialEq, Eq)]
pub struct Attributed<T> {
    pub item: T,
    pub origin: Scope,
    /// Whether the same id also exists in the other layer.
    pub duplicate: bool,
}

/// A result column's declared type.
#[derive(Clone, Debug, PartialEq, Eq)]
pub enum ColumnType {
    Integer,
    Float,
    Bool,
    /// A column known to hold only NULLs.
    Null,
    Text,
    Bytes,
    /// A driver-specific type, by name (`uuid`, `jsonb`, `timestamptz`, ...).
    Other(String),
}

/// A result (or schema) column: its name and declared type.
#[derive(Clone, Debug, PartialEq, Eq)]
pub struct DbColumn {
    pub name: String,
    pub ty: ColumnType,
}

/// One result row: every value already rendered to display text, `NULL` for NULL.
#[derive(Clone, Debug, PartialEq, Eq)]
pub struct Row {
    pub values: Vec<String>,
}

impl View for Row {
    type V = Seq<Seq<char>>;

    open spec fn view(&self) -> Seq<Seq<char>> {
        self.values@.map_values(|s: String| s@)
    }
}

/// One page of a query's results.
#[derive(Clone, Debug, PartialEq, Eq)]
pub struct QueryPage {
    pub columns: Vec<DbColumn>,
    pub rows: Vec<Row>,
    /// Where the next page starts, when the result set has more rows.
    pub next_cursor: Option<String>,
    pub duration_ms: u64,
}

/// A table as introspected: its schema (Postgres), name and columns.
#[derive(Clone, Debug, PartialEq, Eq)]
pub struct TableInfo {
    pub schema: Option<String>,
    pub name: String,
    pub columns: Vec<DbColumn>,
}

/// A database's introspected tables, in the engine's order.
#[derive(Clone, Debug, PartialEq, Eq)]
pub struct SchemaInfo {
    pub tables: Vec<TableInfo>,
}

} // verus!
