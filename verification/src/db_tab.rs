//! The Database tab's decisions outside the results grid: the connection row's state
//! mark, the connections panel grouped into folders, the schema tree, identifier
//! quoting for generated SQL, the connect-time secret lookup, the query history ring
//! and the CSV export.

use vstd::prelude::*;
use crate::model::{Attributed, DbConnection, DbKind, QueryPage, SchemaInfo, TableInfo};
use crate::numeral::{decimal, push_decimal, digit_char};
use crate::order::{lex_sign, stable_order, SortKey, KeyView, key_views, before, covers};
use crate::text::{
    chars_of, string_of, str_eq, push_char, join_with, join_strings, views, split_by, trim_seq,
    trim_string, char_count, utf8_string,
};
use vstd::utf8::{valid_utf8, decode_utf8};

verus! {

/// A cell longer than this many characters gets a `view` affordance.
pub const CELL_VIEW_THRESHOLD: usize = 48;

/// How many run queries the history keeps.
pub const HISTORY_CAP: usize = 50;

/// How many rows one fetched page holds.
pub const PAGE_SIZE: u32 = 100;

/// Whether a cell's text is long enough to get the `view` popover.
pub fn has_view_affordance(text: &str) -> (b: bool)
    ensures
        b == (text@.len() > CELL_VIEW_THRESHOLD),
{
    char_count(text) > CELL_VIEW_THRESHOLD
}

// ---- export formats ----------------------------------------------------------------

/// The formats the export menu offers.
#[derive(Clone, Copy, Debug, PartialEq, Eq, Structural)]
pub enum ExportFormat {
    Csv,
}

impl ExportFormat {
    /// Every format, in menu order.
    pub fn all() -> (v: Vec<ExportFormat>)
        ensures
            v@ == seq![ExportFormat::Csv],
    {
        let v = vec![ExportFormat::Csv];
        assert(v@ =~= seq![ExportFormat::Csv]);
        v
    }

    /// The menu item's label.
    pub fn label(self) -> (s: &'static str)
        ensures
            s@ == "CSV (current page)"@,
    {
        match self {
            ExportFormat::Csv => "CSV (current page)",
        }
    }
}

// ---- the connection row's state mark -----------------------------------------------

/// The state mark a connection row shows.
#[derive(Clone, Copy, Debug, PartialEq, Eq, Structural)]
pub enum ConnectionState {
    /// An open client is held for it.
    Live,
    /// Work is in flight for the selected row.
    Connecting,
    /// The selected row's last attempt failed.
    Failed,
    Offline,
}

/// The mark for a row: an open client wins; otherwise only the selected (active) row
/// can show work in flight, which wins over its failure.
pub fn connection_dot(live: bool, active: bool, busy: bool, errored: bool) -> (s: ConnectionState)
    ensures
        s == (if live {
            ConnectionState::Live
        } else if active && busy {
            ConnectionState::Connecting
        } else if active && errored {
            ConnectionState::Failed
        } else {
            ConnectionState::Offline
        }),
{
    if live {
        ConnectionState::Live
    } else if active && busy {
        ConnectionState::Connecting
    } else if active && errored {
        ConnectionState::Failed
    } else {
        ConnectionState::Offline
    }
}

// ---- names and the schema tree ----------------------------------------------------

/// `schema.table` when the table has a non-empty schema, else the bare name.
pub open spec fn display_name(t: TableInfo) -> Seq<char> {
    match t.schema {
        Some(s) => if s@.len() > 0 {
            s@ + "."@ + t.name@
        } else {
            t.name@
        },
        None => t.name@,
    }
}

/// `schema.table` for a table with a (non-empty) schema, or the bare table name.
pub fn table_display_name(table: &TableInfo) -> (r: String)
    ensures
        r@ == display_name(*table),
{
    match &table.schema {
        Some(s) => if s.as_str().is_empty() {
            table.name.clone()
        } else {
            let mut r = s.clone();
            r.append(".");
            r.append(table.name.as_str());
            r
        },
        None => table.name.clone(),
    }
}

/// One row of the schema tree.
#[derive(Clone, Debug, PartialEq, Eq)]
pub enum SchemaRow {
    /// A table header.
    Table { display_name: String, expanded: bool },
    /// A column of the expanded table above it.
    Column { name: String },
}

/// A schema tree row's content.
pub enum SchemaRowView {
    Table(Seq<char>, bool),
    Column(Seq<char>),
}

impl View for SchemaRow {
    type V = SchemaRowView;

    open spec fn view(&self) -> SchemaRowView {
        match self {
            SchemaRow::Table { display_name, expanded } => SchemaRowView::Table(
                display_name@,
                *expanded,
            ),
            SchemaRow::Column { name } => SchemaRowView::Column(name@),
        }
    }
}

/// A table's rows: its header, then its columns when it is expanded.
pub open spec fn table_block(t: TableInfo, expanded: Seq<Seq<char>>) -> Seq<SchemaRowView> {
    let e = expanded.contains(display_name(t));
    seq![SchemaRowView::Table(display_name(t), e)] + if e {
        t.columns@.map_values(|c: crate::model::DbColumn| SchemaRowView::Column(c.name@))
    } else {
        Seq::empty()
    }
}

/// The schema tree: every table's block, in table order.
pub open spec fn schema_rows_spec(tables: Seq<TableInfo>, expanded: Seq<Seq<char>>) -> Seq<SchemaRowView>
    decreases tables.len(),
{
    if tables.len() == 0 {
        Seq::empty()
    } else {
        schema_rows_spec(tables.drop_last(), expanded) + table_block(tables.last(), expanded)
    }
}

/// The views of a list of schema rows.
pub open spec fn schema_rows_view(rows: Seq<SchemaRow>) -> Seq<SchemaRowView> {
    rows.map_values(|r: SchemaRow| r@)
}

/// Whether `name` is one of `names`.
pub fn contains_name(names: &Vec<String>, name: &str) -> (b: bool)
    ensures
        b == views(names@).contains(name@),
{
    let mut i: usize = 0;
    while i < names.len()
        invariant
            i <= names.len(),
            forall|k: int| 0 <= k < i ==> names@[k]@ != name@,
        decreases names.len() - i,
    {
        if str_eq(names[i].as_str(), name) {
            assert(views(names@)[i as int] == name@);
            return true;
        }
        i = i + 1;
    }
    assert forall|k: int| 0 <= k < views(names@).len() implies views(names@)[k] != name@ by {
        assert(views(names@)[k] == names@[k]@);
    }
    false
}

/// `schema` flattened into tree rows, in table order: each table's header, with its
/// columns right after it when its display name is in `expanded`.
pub fn schema_tree_rows(schema: &SchemaInfo, expanded: &Vec<String>) -> (out: Vec<SchemaRow>)
    ensures
        schema_rows_view(out@) == schema_rows_spec(schema.tables@, views(expanded@)),
{
    let ghost ex = views(expanded@);
    let mut out: Vec<SchemaRow> = Vec::new();
    let mut i: usize = 0;
    while i < schema.tables.len()
        invariant
            i <= schema.tables.len(),
            ex == views(expanded@),
            schema_rows_view(out@) == schema_rows_spec(schema.tables@.take(i as int), ex),
        decreases schema.tables.len() - i,
    {
        let table = &schema.tables[i];
        let ghost before = out@;
        let name = table_display_name(table);
        let ghost dn = name@;
        let is_expanded = contains_name(expanded, name.as_str());
        out.push(SchemaRow::Table { display_name: name, expanded: is_expanded });
        if is_expanded {
            let mut k: usize = 0;
            while k < table.columns.len()
                invariant
                    k <= table.columns.len(),
                    out@.len() == before.len() + 1 + k,
                    out@.subrange(0, before.len() as int) == before,
                    out@[before.len() as int]@ == SchemaRowView::Table(dn, is_expanded),
                    forall|j: int|
                        0 <= j < k ==> (#[trigger] out@[before.len() + 1 + j])@
                            == SchemaRowView::Column(table.columns@[j].name@),
                decreases table.columns.len() - k,
            {
                let ghost prev = out@;
                out.push(SchemaRow::Column { name: table.columns[k].name.clone() });
                proof {
                    assert(out@.subrange(0, before.len() as int) =~= prev.subrange(0, before.len() as int));
                    assert forall|j: int| 0 <= j < k + 1 implies (#[trigger] out@[before.len() + 1 + j])@
                        == SchemaRowView::Column(table.columns@[j].name@) by {
                        if j < k {
                            assert(out@[before.len() + 1 + j] == prev[before.len() + 1 + j]);
                        }
                    }
                }
                k = k + 1;
            }
        }
        proof {
            let t = schema.tables@.take(i + 1);
            assert(t.drop_last() =~= schema.tables@.take(i as int));
            assert(t.last() == *table);
            let blk = table_block(*table, ex);
            assert(dn == display_name(*table));
            assert(schema_rows_view(out@) =~= schema_rows_view(before) + blk) by {
                assert forall|j: int| 0 <= j < out@.len() implies #[trigger] schema_rows_view(out@)[j]
                    == (schema_rows_view(before) + blk)[j] by {
                    if j < before.len() {
                        assert(out@.subrange(0, before.len() as int)[j] == before[j]);
                    } else if j > before.len() {
                        let jj = j - before.len() - 1;
                        assert((out@[before.len() + 1 + jj])@ == SchemaRowView::Column(
                            table.columns@[jj].name@,
                        ));
                    }
                }
            }
        }
        i = i + 1;
    }
    assert(schema.tables@.take(schema.tables.len() as int) =~= schema.tables@);
    out
}

// ---- the connections panel: folders ------------------------------------------------

/// One row of the connections panel.
#[derive(Clone, Debug, PartialEq, Eq)]
pub enum ConnRow {
    /// A collapsible folder header with its member count.
    Folder { name: String, expanded: bool, count: usize },
    /// A connection, by id.
    Connection { id: String },
}

/// A panel row's content.
pub enum ConnRowView {
    Folder(Seq<char>, bool, nat),
    Connection(Seq<char>),
}

impl View for ConnRow {
    type V = ConnRowView;

    open spec fn view(&self) -> ConnRowView {
        match self {
            ConnRow::Folder { name, expanded, count } => ConnRowView::Folder(
                name@,
                *expanded,
                *count as nat,
            ),
            ConnRow::Connection { id } => ConnRowView::Connection(id@),
        }
    }
}

/// The views of a list of panel rows.
pub open spec fn conn_rows_view(rows: Seq<ConnRow>) -> Seq<ConnRowView> {
    rows.map_values(|r: ConnRow| r@)
}

/// The folder a connection is grouped under: a present, non-empty folder name (a blank
/// one counts as none).
pub open spec fn folder_of(c: DbConnection) -> Option<Seq<char>> {
    match c.folder {
        Some(f) => if f@.len() > 0 {
            Some(f@)
        } else {
            None
        },
        None => None,
    }
}

/// The rows of the ungrouped connections, in incoming order.
pub open spec fn ungrouped_rows(conns: Seq<Attributed<DbConnection>>) -> Seq<ConnRowView>
    decreases conns.len(),
{
    if conns.len() == 0 {
        Seq::empty()
    } else {
        let r = ungrouped_rows(conns.drop_last());
        if folder_of(conns.last().item) is None {
            r.push(ConnRowView::Connection(conns.last().item.id@))
        } else {
            r
        }
    }
}

/// The ids of the connections in folder `name`, in incoming order.
pub open spec fn members(conns: Seq<Attributed<DbConnection>>, name: Seq<char>) -> Seq<Seq<char>>
    decreases conns.len(),
{
    if conns.len() == 0 {
        Seq::empty()
    } else {
        let r = members(conns.drop_last(), name);
        if folder_of(conns.last().item) == Some(name) {
            r.push(conns.last().item.id@)
        } else {
            r
        }
    }
}

/// A folder's rows: its header (expanded unless collapsed, with its member count), then
/// its members when expanded.
pub open spec fn folder_block(conns: Seq<Attributed<DbConnection>>, name: Seq<char>, collapsed: Seq<Seq<char>>) -> Seq<ConnRowView> {
    let e = !collapsed.contains(name);
    let m = members(conns, name);
    seq![ConnRowView::Folder(name, e, m.len())] + if e {
        m.map_values(|id: Seq<char>| ConnRowView::Connection(id))
    } else {
        Seq::empty()
    }
}

/// The blocks of the folders `names`, in that order.
pub open spec fn folder_blocks(conns: Seq<Attributed<DbConnection>>, names: Seq<Seq<char>>, collapsed: Seq<Seq<char>>) -> Seq<ConnRowView>
    decreases names.len(),
{
    if names.len() == 0 {
        Seq::empty()
    } else {
        folder_blocks(conns, names.drop_last(), collapsed) + folder_block(conns, names.last(), collapsed)
    }
}

/// Some connection is grouped under folder `name`.
pub open spec fn some_folder(conns: Seq<Attributed<DbConnection>>, name: Seq<char>) -> bool {
    exists|k: int| 0 <= k < conns.len() && folder_of(#[trigger] conns[k].item) == Some(name)
}

/// `names` are exactly the connections' folders, each once, in alphabetical
/// (code-point) order.
pub open spec fn folder_names_ok(conns: Seq<Attributed<DbConnection>>, names: Seq<Seq<char>>) -> bool {
    &&& forall|i: int, j: int| 0 <= i < j < names.len() ==> lex_sign(#[trigger] names[i], #[trigger] names[j]) < 0
    &&& forall|i: int| 0 <= i < names.len() ==> some_folder(conns, #[trigger] names[i])
    &&& forall|k: int| 0 <= k < conns.len() && #[trigger] folder_of(conns[k].item) is Some ==> names.contains(folder_of(conns[k].item)->0)
}

/// The folder a connection is grouped under, if any.
fn folder_name(c: &DbConnection) -> (r: Option<&String>)
    ensures
        match r {
            Some(f) => folder_of(*c) == Some(f@),
            None => folder_of(*c) is None,
        },
{
    match &c.folder {
        Some(f) => if f.as_str().is_empty() {
            None
        } else {
            Some(f)
        },
        None => None,
    }
}

/// The ids of the connections in folder `name`, in incoming order.
fn members_of(conns: &Vec<Attributed<DbConnection>>, name: &str) -> (out: Vec<String>)
    ensures
        views(out@) == members(conns@, name@),
{
    let mut out: Vec<String> = Vec::new();
    let mut i: usize = 0;
    while i < conns.len()
        invariant
            i <= conns.len(),
            views(out@) == members(conns@.take(i as int), name@),
        decreases conns.len() - i,
    {
        let ghost t = conns@.take(i + 1);
        proof {
            assert(t.drop_last() =~= conns@.take(i as int));
            assert(t.last() == conns@[i as int]);
        }
        match folder_name(&conns[i].item) {
            Some(f) => {
                if str_eq(f.as_str(), name) {
                    out.push(conns[i].item.id.clone());
                }
            },
            None => {},
        }
        assert(views(out@) =~= members(t, name@));
        i = i + 1;
    }
    assert(conns@.take(conns.len() as int) =~= conns@);
    out
}

/// The distinct folders of `conns`, in first-seen order.
fn distinct_folders(conns: &Vec<Attributed<DbConnection>>) -> (names: Vec<String>)
    ensures
        forall|a: int, b: int| 0 <= a < b < names@.len() ==> names@[a]@ != names@[b]@,
        forall|i: int| 0 <= i < names@.len() ==> some_folder(conns@, #[trigger] names@[i]@),
        forall|k: int| 0 <= k < conns@.len() && #[trigger] folder_of(conns@[k].item) is Some ==> views(names@).contains(folder_of(conns@[k].item)->0),
{
    let mut names: Vec<String> = Vec::new();
    let mut i: usize = 0;
    assert(conns@.take(0) =~= Seq::<Attributed<DbConnection>>::empty());
    while i < conns.len()
        invariant
            i <= conns.len(),
            forall|a: int, b: int| 0 <= a < b < names@.len() ==> names@[a]@ != names@[b]@,
            forall|j: int| 0 <= j < names@.len() ==> some_folder(conns@.take(i as int), #[trigger] names@[j]@),
            forall|k: int| 0 <= k < i && #[trigger] folder_of(conns@[k].item) is Some ==> views(names@).contains(folder_of(conns@[k].item)->0),
        decreases conns.len() - i,
    {
        match folder_name(&conns[i].item) {
            Some(f) => {
                if !contains_name(&names, f.as_str()) {
                    let ghost before = names@;
                    names.push(f.clone());
                    proof {
                        assert(views(names@) =~= views(before).push(f@));
                        assert forall|a: int, b: int| 0 <= a < b < names@.len() implies names@[a]@ != names@[b]@ by {
                            if b == before.len() {
                                assert(views(before)[a] == before[a]@);
                            }
                        }
                        assert forall|k: int| 0 <= k < i + 1 && #[trigger] folder_of(conns@[k].item) is Some implies views(names@).contains(folder_of(conns@[k].item)->0) by {
                            if k < i {
                                let w = choose|w: int| 0 <= w < views(before).len() && views(before)[w] == folder_of(conns@[k].item)->0;
                                assert(views(names@)[w] == folder_of(conns@[k].item)->0);
                            } else {
                                assert(views(names@)[before.len() as int] == f@);
                            }
                        }
                    }
                }
            },
            None => {},
        }
        proof {
            assert forall|j: int| 0 <= j < names@.len() implies some_folder(conns@.take(i + 1), #[trigger] names@[j]@) by {
                if some_folder(conns@.take(i as int), names@[j]@) {
                    let k = choose|k: int| 0 <= k < i && folder_of(#[trigger] conns@.take(i as int)[k].item) == Some(names@[j]@);
                    assert(conns@.take(i + 1)[k] == conns@.take(i as int)[k]);
                } else {
                    assert(conns@.take(i + 1)[i as int] == conns@[i as int]);
                    assert(folder_of(conns@.take(i + 1)[i as int].item) == Some(names@[j]@));
                }
            }
        }
        i = i + 1;
    }
    assert(conns@.take(i as int) =~= conns@);
    names
}

/// Group `connections` into the panel's rows: every ungrouped connection (no folder,
/// or a blank one) first, in incoming order; then each folder in alphabetical order, as
/// a header (collapsed when its name is in `collapsed`) followed, when expanded, by its
/// members in incoming order.
pub fn group_connections(connections: &Vec<Attributed<DbConnection>>, collapsed: &Vec<String>) -> (out: Vec<ConnRow>)
    ensures
        exists|names: Seq<Seq<char>>|
            folder_names_ok(connections@, names) && conn_rows_view(out@) == ungrouped_rows(
                connections@,
            ) + folder_blocks(connections@, names, views(collapsed@)),
{
    let ghost cs = connections@;
    let ghost col = views(collapsed@);
    // the ungrouped connections lead
    let mut out: Vec<ConnRow> = Vec::new();
    let mut i: usize = 0;
    while i < connections.len()
        invariant
            i <= connections.len(),
            cs == connections@,
            conn_rows_view(out@) == ungrouped_rows(cs.take(i as int)),
        decreases connections.len() - i,
    {
        let ghost t = cs.take(i + 1);
        proof {
            assert(t.drop_last() =~= cs.take(i as int));
            assert(t.last() == cs[i as int]);
        }
        match folder_name(&connections[i].item) {
            None => {
                out.push(ConnRow::Connection { id: connections[i].item.id.clone() });
            },
            Some(_) => {},
        }
        assert(conn_rows_view(out@) =~= ungrouped_rows(t));
        i = i + 1;
    }
    assert(cs.take(cs.len() as int) =~= cs);
    let ghost lead = conn_rows_view(out@);
    // the folders, alphabetically
    let names = distinct_folders(connections);
    let mut keys: Vec<SortKey> = Vec::new();
    let mut k: usize = 0;
    while k < names.len()
        invariant
            k <= names.len(),
            keys@.len() == k,
            forall|j: int| 0 <= j < k ==> (#[trigger] keys@[j])@ == (KeyView { rank: 0, text: names@[j]@ }),
        decreases names.len() - k,
    {
        keys.push(SortKey { rank: 0, text: chars_of(names[k].as_str()) });
        k = k + 1;
    }
    let p = stable_order(&keys, false);
    let ghost kv = key_views(keys@);
    let mut sorted: Vec<String> = Vec::new();
    let mut u: usize = 0;
    while u < p.len()
        invariant
            u <= p.len(),
            p@.len() == names@.len(),
            forall|j: int| 0 <= j < p@.len() ==> #[trigger] p@[j] < names@.len(),
            sorted@.len() == u,
            forall|j: int| 0 <= j < u ==> (#[trigger] sorted@[j])@ == names@[p@[j] as int]@,
        decreases p.len() - u,
    {
        sorted.push(names[p[u]].clone());
        u = u + 1;
    }
    proof {
        let sv = views(sorted@);
        assert forall|a: int, b: int| 0 <= a < b < sv.len() implies lex_sign(#[trigger] sv[a], #[trigger] sv[b]) < 0 by {
            assert(before(kv, false, p@[a] as int, p@[b] as int));
            assert(kv[p@[a] as int] == keys@[p@[a] as int]@);
            assert(kv[p@[b] as int] == keys@[p@[b] as int]@);
            assert(p@[a] != p@[b]);
            crate::order::lemma_lex_equal(sv[a], sv[b]);
            if lex_sign(sv[a], sv[b]) == 0 {
                if p@[a] < p@[b] {
                    assert(names@[p@[a] as int]@ != names@[p@[b] as int]@);
                } else {
                    assert(names@[p@[b] as int]@ != names@[p@[a] as int]@);
                }
            }
        }
        assert forall|j: int| 0 <= j < sv.len() implies some_folder(cs, #[trigger] sv[j]) by {
            assert(sv[j] == names@[p@[j] as int]@);
        }
        assert forall|kk: int| 0 <= kk < cs.len() && #[trigger] folder_of(cs[kk].item) is Some implies sv.contains(folder_of(cs[kk].item)->0) by {
            let f = folder_of(cs[kk].item)->0;
            let w = choose|w: int| 0 <= w < views(names@).len() && views(names@)[w] == f;
            assert(covers(p@, names@.len() as int, w));
            let x = choose|x: int| 0 <= x < names@.len() && p@[x] == w;
            assert(sv[x] == f);
        }
        assert(folder_names_ok(cs, sv));
    }
    let mut v: usize = 0;
    while v < sorted.len()
        invariant
            v <= sorted.len(),
            cs == connections@,
            col == views(collapsed@),
            conn_rows_view(out@) == lead + folder_blocks(cs, views(sorted@.take(v as int)), col),
        decreases sorted.len() - v,
    {
        let name = &sorted[v];
        let ghost before = conn_rows_view(out@);
        let ids = members_of(connections, name.as_str());
        let expanded = !contains_name(collapsed, name.as_str());
        out.push(ConnRow::Folder { name: name.clone(), expanded, count: ids.len() });
        if expanded {
            let mut w: usize = 0;
            while w < ids.len()
                invariant
                    w <= ids.len(),
                    conn_rows_view(out@) == before + seq![ConnRowView::Folder(name@, expanded, ids@.len() as nat)] + views(ids@).take(w as int).map_values(|id: Seq<char>| ConnRowView::Connection(id)),
                decreases ids.len() - w,
            {
                let ghost prev = out@;
                let ghost head = before + seq![ConnRowView::Folder(name@, expanded, ids@.len() as nat)];
                out.push(ConnRow::Connection { id: ids[w].clone() });
                proof {
                    let tk = views(ids@).take(w as int).map_values(|id: Seq<char>| ConnRowView::Connection(id));
                    let tk2 = views(ids@).take(w + 1).map_values(|id: Seq<char>| ConnRowView::Connection(id));
                    assert(tk2 =~= tk.push(ConnRowView::Connection(ids@[w as int]@)));
                    assert(conn_rows_view(out@) =~= conn_rows_view(prev).push(ConnRowView::Connection(ids@[w as int]@)));
                    assert(head + tk2 =~= (head + tk).push(ConnRowView::Connection(ids@[w as int]@)));
                }
                assert(conn_rows_view(out@) =~= before + seq![ConnRowView::Folder(name@, expanded, ids@.len() as nat)] + views(ids@).take(w + 1).map_values(|id: Seq<char>| ConnRowView::Connection(id)));
                w = w + 1;
            }
            assert(views(ids@).take(ids@.len() as int) =~= views(ids@));
        }
        proof {
            let nv = views(sorted@.take(v + 1));
            assert(nv.drop_last() =~= views(sorted@.take(v as int)));
            assert(nv.last() == name@);
            let blk = folder_block(cs, name@, col);
            assert(conn_rows_view(out@) =~= before + blk);
        }
        v = v + 1;
    }
    assert(sorted@.take(sorted@.len() as int) =~= sorted@);
    out
}

// ---- identifiers in generated SQL --------------------------------------------------

/// `c` may start a plain identifier: an ASCII letter or `_`.
pub open spec fn ident_start(c: char) -> bool {
    ('a' <= c && c <= 'z') || ('A' <= c && c <= 'Z') || c == '_'
}

/// `c` may continue a plain identifier: an ASCII letter, digit or `_`.
pub open spec fn ident_char(c: char) -> bool {
    ident_start(c) || ('0' <= c && c <= '9')
}

/// `s` is a plain identifier (`[A-Za-z_][A-Za-z0-9_]*`).
pub open spec fn plain_ident(s: Seq<char>) -> bool {
    s.len() > 0 && ident_start(s[0]) && forall|k: int| 0 <= k < s.len() ==> ident_char(#[trigger] s[k])
}

/// `s` with every `"` doubled.
pub open spec fn double_quotes(s: Seq<char>) -> Seq<char>
    decreases s.len(),
{
    if s.len() == 0 {
        Seq::empty()
    } else if s.last() == '"' {
        double_quotes(s.drop_last()) + seq!['"', '"']
    } else {
        double_quotes(s.drop_last()).push(s.last())
    }
}

/// A dot-segment as generated SQL writes it: bare when plain, else wrapped in `"` with
/// inner `"` doubled (ANSI quoting).
pub open spec fn quote_segment(s: Seq<char>) -> Seq<char> {
    if plain_ident(s) {
        s
    } else {
        seq!['"'] + double_quotes(s) + seq!['"']
    }
}

/// `ident` with each `.`-separated segment quoted as [`quote_segment`] says.
pub open spec fn quote_ident_spec(ident: Seq<char>) -> Seq<char> {
    join_with(split_by(ident, crate::text::char_sep('.')).map_values(|g: Seq<char>| quote_segment(g)), "."@)
}

/// Whether `v` is a plain identifier.
fn is_plain(v: &Vec<char>) -> (b: bool)
    ensures
        b == plain_ident(v@),
{
    if v.len() == 0 {
        return false;
    }
    let c0 = v[0];
    if !(('a' <= c0 && c0 <= 'z') || ('A' <= c0 && c0 <= 'Z') || c0 == '_') {
        return false;
    }
    let mut k: usize = 0;
    while k < v.len()
        invariant
            k <= v.len(),
            forall|j: int| 0 <= j < k ==> ident_char(#[trigger] v@[j]),
        decreases v.len() - k,
    {
        let c = v[k];
        if !(('a' <= c && c <= 'z') || ('A' <= c && c <= 'Z') || c == '_' || ('0' <= c && c <= '9')) {
            assert(!ident_char(v@[k as int]));
            return false;
        }
        k = k + 1;
    }
    true
}

/// One segment as generated SQL writes it.
fn quote_segment_exec(seg: &str) -> (r: String)
    ensures
        r@ == quote_segment(seg@),
{
    let v = chars_of(seg);
    if is_plain(&v) {
        return String::from_str(seg);
    }
    let mut r = String::new();
    push_char(&mut r, '"');
    let mut i: usize = 0;
    while i < v.len()
        invariant
            i <= v.len(),
            r@ == seq!['"'] + double_quotes(v@.take(i as int)),
        decreases v.len() - i,
    {
        let c = v[i];
        push_char(&mut r, c);
        if c == '"' {
            push_char(&mut r, '"');
        }
        proof {
            let t = v@.take(i + 1);
            assert(t.drop_last() =~= v@.take(i as int));
            assert(t.last() == c);
        }
        assert(r@ =~= seq!['"'] + double_quotes(v@.take(i + 1)));
        i = i + 1;
    }
    push_char(&mut r, '"');
    assert(v@.take(v.len() as int) =~= v@);
    assert(r@ =~= quote_segment(seg@));
    r
}

/// Quote an introspected identifier for generated SQL: every `.`-segment that is not a
/// plain identifier is wrapped in `"` with its inner `"` doubled, so a hostile name
/// stays one (at worst malformed) identifier and never becomes a second statement.
pub fn quote_ident(ident: &str) -> (r: String)
    ensures
        r@ == quote_ident_spec(ident@),
{
    let parts = crate::text::split_on(ident, '.');
    let ghost pv = views(parts@);
    let mut quoted: Vec<String> = Vec::new();
    let mut i: usize = 0;
    while i < parts.len()
        invariant
            i <= parts.len(),
            pv == views(parts@),
            views(quoted@) == pv.take(i as int).map_values(|g: Seq<char>| quote_segment(g)),
        decreases parts.len() - i,
    {
        let q = quote_segment_exec(parts[i].as_str());
        let ghost before = quoted@;
        assert(pv[i as int] == parts@[i as int]@);
        quoted.push(q);
        assert(views(quoted@) =~= views(before).push(quote_segment(pv[i as int])));
        assert(pv.take(i + 1) =~= pv.take(i as int).push(pv[i as int]));
        i = i + 1;
        assert(views(quoted@) =~= pv.take(i as int).map_values(|g: Seq<char>| quote_segment(g)));
    }
    assert(pv.take(pv.len() as int) =~= pv);
    join_strings(&quoted, ".")
}

/// The `WHERE` filter scaffold a diagram column click seeds the editor with, trailing
/// space included: `SELECT * FROM <table> WHERE <column> = `, both identifiers
/// quoted as [`quote_ident`] says.
pub fn where_filter_scaffold(table: &str, column: &str) -> (r: String)
    ensures
        r@ == "SELECT * FROM "@ + quote_ident_spec(table@) + " WHERE "@ + quote_ident_spec(column@)
            + " = "@,
{
    let mut r = String::from_str("SELECT * FROM ");
    let t = quote_ident(table);
    r.append(t.as_str());
    r.append(" WHERE ");
    let c = quote_ident(column);
    r.append(c.as_str());
    r.append(" = ");
    r
}

/// Quotes in `t` come only in adjacent pairs.
pub open spec fn paired_quotes(t: Seq<char>) -> bool
    decreases t.len(),
{
    if t.len() == 0 {
        true
    } else if t.last() != '"' {
        paired_quotes(t.drop_last())
    } else {
        t.len() >= 2 && t[t.len() - 2] == '"' && paired_quotes(t.take(t.len() - 2))
    }
}

proof fn lemma_double_quotes_paired(s: Seq<char>)
    ensures
        paired_quotes(double_quotes(s)),
    decreases s.len(),
{
    if s.len() > 0 {
        lemma_double_quotes_paired(s.drop_last());
        let d = double_quotes(s.drop_last());
        if s.last() == '"' {
            let t = d + seq!['"', '"'];
            assert(t.take(t.len() - 2) =~= d);
        } else {
            let t = d.push(s.last());
            assert(t.drop_last() =~= d);
        }
    }
}

/// A quoted segment cannot escape its identifier position: it is either a plain
/// identifier (letters, digits and `_` only) or one `"`-delimited identifier whose inner
/// quotes all come in doubled pairs.
pub proof fn law_quoted_segment_stays_an_identifier(seg: Seq<char>)
    ensures
        plain_ident(quote_segment(seg)) || ({
            let q = quote_segment(seg);
            &&& q.len() >= 2
            &&& q[0] == '"'
            &&& q.last() == '"'
            &&& paired_quotes(q.subrange(1, q.len() - 1))
        }),
{
    if !plain_ident(seg) {
        let q = quote_segment(seg);
        lemma_double_quotes_paired(seg);
        assert(q.subrange(1, q.len() - 1) =~= double_quotes(seg));
    }
}

// ---- the connect-time secret -------------------------------------------------------

/// What `{:?}` writes for a string with these characters: the text in double quotes,
/// with quotes, backslashes and unprintable characters escaped.
pub uninterp spec fn debug_quoted(s: Seq<char>) -> Seq<char>;

/// Calls `<str as Debug>::fmt` (through `format!`). Claimed: the text is
/// `debug_quoted` of the string's characters, which depends on them alone.
#[verifier::external_body]
fn debug_str(s: &str) -> (r: String)
    ensures
        r@ == debug_quoted(s@),
{
    format!("{s:?}")
}

/// What a keyring lookup for `secret_ref` comes to: the stored bytes as text; an error
/// naming the reference when the lookup failed, when nothing is stored under it (a
/// dangling reference), or when the bytes are not UTF-8.
pub open spec fn secret_outcome(secret_ref: Seq<char>, lookup: Result<Option<Seq<u8>>, Seq<char>>) -> Result<
    Option<Seq<char>>,
    Seq<char>,
> {
    match lookup {
        Err(e) => Err("secret lookup for "@ + debug_quoted(secret_ref) + " failed: "@ + e),
        Ok(Some(b)) => if valid_utf8(b) {
            Ok(Some(decode_utf8(b)))
        } else {
            Err("stored secret is not valid UTF-8"@)
        },
        Ok(None) => Err("dangling secret_ref "@ + debug_quoted(secret_ref)
            + " — no secret in the keyring"@),
    }
}

/// The content of a keyring lookup's result.
pub open spec fn lookup_view(l: Result<Option<Vec<u8>>, String>) -> Result<Option<Seq<u8>>, Seq<char>> {
    match l {
        Ok(Some(b)) => Ok(Some(b@)),
        Ok(None) => Ok(None),
        Err(e) => Err(e@),
    }
}

/// The content of a resolved secret.
pub open spec fn secret_view(r: Result<Option<String>, String>) -> Result<Option<Seq<char>>, Seq<char>> {
    match r {
        Ok(Some(s)) => Ok(Some(s@)),
        Ok(None) => Ok(None),
        Err(e) => Err(e@),
    }
}

/// Interpret the keyring's answer for `secret_ref`.
pub fn resolve_secret_lookup(secret_ref: &str, lookup: Result<Option<Vec<u8>>, String>) -> (r: Result<
    Option<String>,
    String,
>)
    ensures
        secret_view(r) == secret_outcome(secret_ref@, lookup_view(lookup)),
{
    match lookup {
        Err(e) => {
            let mut m = String::from_str("secret lookup for ");
            let q = debug_str(secret_ref);
            m.append(q.as_str());
            m.append(" failed: ");
            m.append(e.as_str());
            Err(m)
        },
        Ok(Some(b)) => match utf8_string(b) {
            Some(s) => Ok(Some(s)),
            None => Err(String::from_str("stored secret is not valid UTF-8")),
        },
        Ok(None) => {
            let mut m = String::from_str("dangling secret_ref ");
            let q = debug_str(secret_ref);
            m.append(q.as_str());
            m.append(" — no secret in the keyring");
            Err(m)
        },
    }
}

/// The secret behind a connection's `secret_ref`, given the keyring's answer
/// (`lookup`) for exactly that reference — asked only when there is one: no reference
/// is no secret; a reference's answer is interpreted as [`secret_outcome`] says.
pub fn resolve_db_secret(secret_ref: Option<&str>, lookup: Option<Result<Option<Vec<u8>>, String>>) -> (r:
    Result<Option<String>, String>)
    requires
        (secret_ref is Some) == (lookup is Some),
    ensures
        match (secret_ref, lookup) {
            (Some(x), Some(l)) => secret_view(r) == secret_outcome(x@, lookup_view(l)),
            _ => r matches Ok(None),
        },
{
    match (secret_ref, lookup) {
        (Some(x), Some(l)) => resolve_secret_lookup(x, l),
        _ => Ok(None),
    }
}

/// Which database action a connect-time password prompt retries once the password is
/// stored.
#[derive(Clone, Copy, Debug, PartialEq, Eq, Structural)]
pub enum DbRetry {
    RunQuery,
    RefreshSchema,
}

/// Whether an action pauses for the password prompt instead of reporting the secret
/// error: only when the lookup failed and the engine authenticates with a password
/// (Postgres).
pub fn needs_password_prompt(kind: DbKind, secret: &Result<Option<String>, String>) -> (b: bool)
    ensures
        b == (kind == DbKind::Postgres && secret is Err),
{
    let pg = match kind {
        DbKind::Postgres => true,
        _ => false,
    };
    pg && secret.is_err()
}

// ---- query history -----------------------------------------------------------------

/// The history after running `sql`: unchanged when `sql` repeats the most recent entry;
/// otherwise `sql` appended, the oldest entry dropped when that goes past `cap`.
pub open spec fn history_after(old: Seq<Seq<char>>, sql: Seq<char>, cap: int) -> Seq<Seq<char>> {
    if old.len() > 0 && old.last() == sql {
        old
    } else if old.len() + 1 > cap {
        old.push(sql).drop_first()
    } else {
        old.push(sql)
    }
}

/// Record a run query: most recent last, consecutive repeats skipped, at most `cap`
/// entries kept by dropping the oldest.
pub fn push_history(history: &mut Vec<String>, sql: String, cap: usize)
    ensures
        views(final(history)@) == history_after(views(old(history)@), sql@, cap as int),
{
    let n = history.len();
    if n > 0 && str_eq(history[n - 1].as_str(), sql.as_str()) {
        assert(views(history@).last() == history@[n - 1]@);
        return;
    }
    let ghost before = history@;
    let ghost s = sql@;
    history.push(sql);
    assert(views(history@) =~= views(before).push(s));
    if history.len() > cap {
        let ghost pushed = history@;
        history.remove(0);
        assert(views(history@) =~= views(pushed).drop_first());
    }
}

/// No two neighbouring entries are the same query.
pub open spec fn no_repeats(h: Seq<Seq<char>>) -> bool {
    forall|i: int, j: int| 0 <= i && j == i + 1 && j < h.len() ==> #[trigger] h[i] != #[trigger] h[j]
}

/// The history never grows past its cap, its newest entry is the query just run (when
/// the cap leaves room for one), and it never holds the same query twice in a row.
pub proof fn law_history_ring(old: Seq<Seq<char>>, sql: Seq<char>, cap: int)
    requires
        0 <= cap,
        old.len() <= cap,
    ensures
        history_after(old, sql, cap).len() <= cap,
        cap >= 1 ==> history_after(old, sql, cap).len() > 0 && history_after(old, sql, cap).last()
            == sql,
        no_repeats(old) ==> no_repeats(history_after(old, sql, cap)),
{
    let h = history_after(old, sql, cap);
    if !(old.len() > 0 && old.last() == sql) {
        let p = old.push(sql);
        if no_repeats(old) {
            assert forall|i: int, j: int| 0 <= i && j == i + 1 && j < p.len() implies #[trigger] p[i]
                != #[trigger] p[j] by {
                if j < old.len() {
                    assert(p[i] == old[i] && p[j] == old[j]);
                } else {
                    assert(p[i] == old.last());
                }
            }
            if old.len() + 1 > cap {
                assert forall|i: int, j: int| 0 <= i && j == i + 1 && j < h.len() implies #[trigger] h[i]
                    != #[trigger] h[j] by {
                    assert(h[i] == p[i + 1] && h[j] == p[j + 1]);
                }
            }
        }
    }
}

// ---- CSV export --------------------------------------------------------------------

/// A first character a spreadsheet may evaluate as a formula.
pub open spec fn formula_lead(c: char) -> bool {
    c == '=' || c == '+' || c == '-' || c == '@' || c == '\t' || c == '\r'
}

/// A character that forces RFC 4180 quoting.
pub open spec fn csv_special(c: char) -> bool {
    c == '"' || c == ',' || c == '\n' || c == '\r'
}

/// A field with a `'` put in front when it starts like a formula.
pub open spec fn guarded(f: Seq<char>) -> Seq<char> {
    if f.len() > 0 && formula_lead(f[0]) {
        seq!['\''] + f
    } else {
        f
    }
}

/// The field holds a quote, comma or line break.
pub open spec fn quotes_needed(g: Seq<char>) -> bool {
    exists|k: int| 0 <= k < g.len() && csv_special(#[trigger] g[k])
}

/// One CSV field: a `'` prefix when it starts like a formula, then wrapped in `"` (with
/// inner `"` doubled) when it holds a quote, comma or line break.
pub open spec fn csv_field(f: Seq<char>) -> Seq<char> {
    let g = guarded(f);
    if quotes_needed(g) {
        seq!['"'] + double_quotes(g) + seq!['"']
    } else {
        g
    }
}

/// Escape one CSV field against formula injection and RFC 4180's structural
/// characters.
pub fn csv_escape_field(field: &str) -> (r: String)
    ensures
        r@ == csv_field(field@),
{
    let v = chars_of(field);
    let mut g: Vec<char> = Vec::new();
    if v.len() > 0 {
        let c = v[0];
        if c == '=' || c == '+' || c == '-' || c == '@' || c == '\t' || c == '\r' {
            g.push('\'');
        }
    }
    let ghost head = g@;
    let mut i: usize = 0;
    while i < v.len()
        invariant
            i <= v.len(),
            g@ == head + v@.take(i as int),
        decreases v.len() - i,
    {
        g.push(v[i]);
        i = i + 1;
        assert(g@ =~= head + v@.take(i as int));
    }
    assert(v@.take(v.len() as int) =~= v@);
    assert(g@ =~= guarded(field@));
    let mut special = false;
    let mut k: usize = 0;
    while k < g.len()
        invariant
            k <= g.len(),
            !special ==> forall|j: int| 0 <= j < k ==> !csv_special(#[trigger] g@[j]),
            special ==> exists|j: int| 0 <= j < g@.len() && csv_special(#[trigger] g@[j]),
        decreases g.len() - k,
    {
        let c = g[k];
        if c == '"' || c == ',' || c == '\n' || c == '\r' {
            assert(csv_special(g@[k as int]));
            special = true;
        }
        k = k + 1;
    }
    if !special {
        assert(!quotes_needed(g@));
        return string_of(&g);
    }
    assert(quotes_needed(g@));
    let mut r = String::new();
    push_char(&mut r, '"');
    let mut j: usize = 0;
    while j < g.len()
        invariant
            j <= g.len(),
            r@ == seq!['"'] + double_quotes(g@.take(j as int)),
        decreases g.len() - j,
    {
        let c = g[j];
        push_char(&mut r, c);
        if c == '"' {
            push_char(&mut r, '"');
        }
        proof {
            let t = g@.take(j + 1);
            assert(t.drop_last() =~= g@.take(j as int));
            assert(t.last() == c);
        }
        assert(r@ =~= seq!['"'] + double_quotes(g@.take(j + 1)));
        j = j + 1;
    }
    push_char(&mut r, '"');
    assert(g@.take(g.len() as int) =~= g@);
    assert(r@ =~= seq!['"'] + double_quotes(g@) + seq!['"']);
    r
}

/// An exported field is inert in a spreadsheet: it never begins with a formula
/// character, and when it is quoted the first character inside the quote is not one
/// either; what sits inside a quoted field has every `"` doubled.
pub proof fn law_csv_field_is_inert(f: Seq<char>)
    ensures
        csv_field(f).len() > 0 ==> !formula_lead(csv_field(f)[0]),
        csv_field(f).len() > 0 && csv_field(f)[0] == '"' ==> csv_field(f).len() >= 2
            && !formula_lead(csv_field(f)[1]) && csv_field(f).last() == '"' && paired_quotes(
            csv_field(f).subrange(1, csv_field(f).len() - 1),
        ),
{
    let g = guarded(f);
    if quotes_needed(g) {
        let e = csv_field(f);
        lemma_double_quotes_paired(g);
        lemma_double_quotes_head(g);
        assert(e == seq!['"'] + double_quotes(g) + seq!['"']);
        assert(e.subrange(1, e.len() - 1) =~= double_quotes(g));
        assert(g.len() > 0);
        if f.len() > 0 && formula_lead(f[0]) {
            assert(g[0] == '\'');
        }
        assert(e[1] == double_quotes(g)[0]);
    } else {
        if f.len() > 0 && formula_lead(f[0]) {
            assert(g[0] == '\'');
        } else if g.len() > 0 {
            assert(g[0] == f[0]);
            if g[0] == '"' {
                assert(csv_special(g[0]));
                assert(quotes_needed(g));
            }
        }
    }
}

/// The first character of a doubled text is its original's first character (a doubled
/// quote starts with a quote).
proof fn lemma_double_quotes_head(s: Seq<char>)
    requires
        s.len() > 0,
    ensures
        double_quotes(s).len() > 0,
        double_quotes(s)[0] == s[0],
    decreases s.len(),
{
    if s.len() > 1 {
        lemma_double_quotes_head(s.drop_last());
        assert(s.drop_last()[0] == s[0]);
    } else {
        assert(s.drop_last().len() == 0);
        assert(double_quotes(s.drop_last()) =~= Seq::<char>::empty());
    }
}

/// One CSV line's fields, escaped and joined with commas.
pub open spec fn csv_line(fields: Seq<Seq<char>>) -> Seq<char> {
    join_with(fields.map_values(|f: Seq<char>| csv_field(f)), ","@)
}

/// The data lines of a page, each `\r\n`-terminated.
pub open spec fn csv_rows(rows: Seq<crate::model::Row>) -> Seq<char>
    decreases rows.len(),
{
    if rows.len() == 0 {
        Seq::empty()
    } else {
        csv_rows(rows.drop_last()) + csv_line(rows.last()@) + "\r\n"@
    }
}

/// A whole page as CSV: the column names, then every row, each line escaped and
/// `\r\n`-terminated.
pub open spec fn page_csv(page: QueryPage) -> Seq<char> {
    csv_line(page.columns@.map_values(|c: crate::model::DbColumn| c.name@)) + "\r\n"@ + csv_rows(
        page.rows@,
    )
}

/// One line's fields, escaped and joined with commas.
fn csv_line_exec(fields: &Vec<String>) -> (r: String)
    ensures
        r@ == csv_line(views(fields@)),
{
    let mut escaped: Vec<String> = Vec::new();
    let mut i: usize = 0;
    while i < fields.len()
        invariant
            i <= fields.len(),
            views(escaped@) == views(fields@).take(i as int).map_values(|f: Seq<char>| csv_field(f)),
        decreases fields.len() - i,
    {
        let e = csv_escape_field(fields[i].as_str());
        let ghost before = escaped@;
        escaped.push(e);
        assert(views(escaped@) =~= views(before).push(csv_field(fields@[i as int]@)));
        assert(views(fields@).take(i + 1) =~= views(fields@).take(i as int).push(fields@[i as int]@));
        i = i + 1;
    }
    assert(views(fields@).take(fields.len() as int) =~= views(fields@));
    join_strings(&escaped, ",")
}

/// Render a page as CSV text: a header line of column names, then one line per row,
/// every field escaped by [`csv_escape_field`], every line `\r\n`-terminated.
pub fn page_to_csv(page: &QueryPage) -> (r: String)
    ensures
        r@ == page_csv(*page),
{
    let mut names: Vec<String> = Vec::new();
    let mut i: usize = 0;
    while i < page.columns.len()
        invariant
            i <= page.columns.len(),
            views(names@) == page.columns@.take(i as int).map_values(|c: crate::model::DbColumn| c.name@),
        decreases page.columns.len() - i,
    {
        let ghost before = names@;
        names.push(page.columns[i].name.clone());
        assert(views(names@) =~= views(before).push(page.columns@[i as int].name@));
        assert(page.columns@.take(i + 1) =~= page.columns@.take(i as int).push(page.columns@[i as int]));
        i = i + 1;
        assert(views(names@) =~= page.columns@.take(i as int).map_values(|c: crate::model::DbColumn| c.name@));
    }
    assert(page.columns@.take(page.columns.len() as int) =~= page.columns@);
    let header = csv_line_exec(&names);
    let mut out = String::new();
    out.append(header.as_str());
    out.append("\r\n");
    let ghost head = out@;
    let mut k: usize = 0;
    assert(page.rows@.take(0) =~= Seq::<crate::model::Row>::empty());
    while k < page.rows.len()
        invariant
            k <= page.rows.len(),
            out@ == head + csv_rows(page.rows@.take(k as int)),
        decreases page.rows.len() - k,
    {
        let line = csv_line_exec(&page.rows[k].values);
        assert(views(page.rows@[k as int].values@) =~= page.rows@[k as int]@);
        out.append(line.as_str());
        out.append("\r\n");
        proof {
            let t = page.rows@.take(k + 1);
            assert(t.drop_last() =~= page.rows@.take(k as int));
            assert(t.last() == page.rows@[k as int]);
        }
        assert(out@ =~= head + csv_rows(page.rows@.take(k + 1)));
        k = k + 1;
    }
    assert(page.rows@.take(page.rows.len() as int) =~= page.rows@);
    out
}

/// A character a file name may keep: an ASCII letter or digit, `-` or `_`.
pub open spec fn filename_safe(c: char) -> bool {
    ('a' <= c && c <= 'z') || ('A' <= c && c <= 'Z') || ('0' <= c && c <= '9') || c == '-' || c == '_'
}

/// A connection name made safe for a file name: every other character becomes `_`;
/// an empty name becomes `query`.
pub open spec fn sanitized(label: Seq<char>) -> Seq<char> {
    if label.len() == 0 {
        "query"@
    } else {
        label.map_values(|c: char| if filename_safe(c) { c } else { '_' })
    }
}

/// Make a connection name safe to use in a file name: nothing but ASCII letters,
/// digits, `-` and `_` survives, so no path separator or `..` can.
pub fn sanitize_filename_component(label: &str) -> (r: String)
    ensures
        r@ == sanitized(label@),
{
    let v = chars_of(label);
    if v.len() == 0 {
        return String::from_str("query");
    }
    let mut out: Vec<char> = Vec::new();
    let mut i: usize = 0;
    while i < v.len()
        invariant
            i <= v.len(),
            out@ == v@.take(i as int).map_values(|c: char| if filename_safe(c) { c } else { '_' }),
        decreases v.len() - i,
    {
        let c = v[i];
        let keep = ('a' <= c && c <= 'z') || ('A' <= c && c <= 'Z') || ('0' <= c && c <= '9') || c == '-' || c == '_';
        out.push(if keep { c } else { '_' });
        i = i + 1;
        assert(out@ =~= v@.take(i as int).map_values(|c: char| if filename_safe(c) { c } else { '_' }));
    }
    assert(v@.take(v.len() as int) =~= v@);
    string_of(&out)
}

/// A sanitized name holds only file-name-safe characters, so it can never name another
/// directory.
pub proof fn law_sanitized_names_stay_in_place(label: Seq<char>)
    ensures
        sanitized(label).len() > 0,
        forall|k: int| 0 <= k < sanitized(label).len() ==> filename_safe(#[trigger] sanitized(label)[k]),
{
    if label.len() == 0 {
        reveal_strlit("query");
    }
}

/// The `n`-th export file name for a (sanitized) stem: `<stem>-<n>.csv`.
pub fn csv_export_file_name(stem: &str, n: u32) -> (r: String)
    ensures
        r@ == stem@ + "-"@ + decimal(n as nat) + ".csv"@,
{
    let mut r = String::from_str(stem);
    r.append("-");
    push_decimal(&mut r, n as u128);
    r.append(".csv");
    r
}

/// The `n`-th export file name for a stem, as characters.
pub open spec fn export_name(stem: Seq<char>, n: nat) -> Seq<char> {
    stem + "-"@ + decimal(n) + ".csv"@
}

proof fn lemma_decimal_len(n: nat)
    ensures
        decimal(n).len() >= 1,
        n >= 10 ==> decimal(n).len() >= 2,
    decreases n,
{
    if n >= 10 {
        lemma_decimal_len(n / 10);
    }
}

/// Distinct numbers have distinct numerals.
proof fn lemma_decimal_injective(a: nat, b: nat)
    requires
        decimal(a) == decimal(b),
    ensures
        a == b,
    decreases a,
{
    lemma_decimal_len(a);
    lemma_decimal_len(b);
    if a < 10 && b < 10 {
        assert(decimal(a)[0] == digit_char(a as int));
        assert(decimal(b)[0] == digit_char(b as int));
        assert(digit_char(a as int) as u32 == a + 48);
        assert(digit_char(b as int) as u32 == b + 48);
    } else if a >= 10 && b >= 10 {
        let da = decimal(a);
        let db = decimal(b);
        assert(da.drop_last() =~= decimal(a / 10));
        assert(db.drop_last() =~= decimal(b / 10));
        lemma_decimal_injective(a / 10, b / 10);
        assert(da.last() == db.last());
        let ra = (a % 10) as int;
        let rb = (b % 10) as int;
        assert(da.last() == digit_char(ra));
        assert(db.last() == digit_char(rb));
        assert(digit_char(ra) as u32 == ra + 48);
        assert(digit_char(rb) as u32 == rb + 48);
    } else {
        assert(decimal(a).len() == decimal(b).len());
    }
}

/// Distinct numbers give distinct export names.
proof fn lemma_export_name_injective(stem: Seq<char>, a: nat, b: nat)
    requires
        export_name(stem, a) == export_name(stem, b),
    ensures
        a == b,
{
    reveal_strlit("-");
    reveal_strlit(".csv");
    let x = export_name(stem, a);
    let lo: int = stem.len() as int + 1;
    assert(decimal(a).len() == decimal(b).len()) by {
        assert(x.len() == stem.len() + 1 + decimal(a).len() + 4);
        assert(export_name(stem, b).len() == stem.len() + 1 + decimal(b).len() + 4);
    }
    assert(x.subrange(lo, lo + decimal(a).len() as int) =~= decimal(a));
    assert(export_name(stem, b).subrange(lo, lo + decimal(b).len() as int) =~= decimal(b));
    lemma_decimal_injective(a, b);
}

/// The export names numbered `1..n`, in order.
pub open spec fn names_below(stem: Seq<char>, n: nat) -> Seq<Seq<char>> {
    Seq::new((n - 1) as nat, |i: int| export_name(stem, (i + 1) as nat))
}

/// When every export name numbered `1..n` is taken, there are at least `n - 1` taken
/// names.
proof fn lemma_taken_names_count(stem: Seq<char>, taken: Seq<Seq<char>>, n: nat)
    requires
        n >= 1,
        forall|m: nat| 1 <= m < n ==> taken.contains(#[trigger] export_name(stem, m)),
    ensures
        n - 1 <= taken.len(),
{
    let names = names_below(stem, n);
    assert(names.no_duplicates()) by {
        assert forall|i: int, j: int| 0 <= i < names.len() && 0 <= j < names.len() && i != j implies names[i]
            != names[j] by {
            if names[i] == names[j] {
                lemma_export_name_injective(stem, (i + 1) as nat, (j + 1) as nat);
            }
        }
    }
    names.unique_seq_to_set();
    assert(names.to_set().subset_of(taken.to_set())) by {
        assert forall|x: Seq<char>| names.to_set().contains(x) implies taken.to_set().contains(x) by {
            let i = choose|i: int| 0 <= i < names.len() && names[i] == x;
            assert(taken.contains(export_name(stem, (i + 1) as nat)));
        }
    }
    taken.lemma_cardinality_of_set();
    vstd::set_lib::lemma_len_subset(names.to_set(), taken.to_set());
}

/// Whether `name` is among `taken`.
fn is_taken(taken: &Vec<String>, name: &str) -> (b: bool)
    ensures
        b == views(taken@).contains(name@),
{
    let mut i: usize = 0;
    while i < taken.len()
        invariant
            i <= taken.len(),
            forall|k: int| 0 <= k < i ==> taken@[k]@ != name@,
        decreases taken.len() - i,
    {
        if str_eq(taken[i].as_str(), name) {
            assert(views(taken@)[i as int] == name@);
            return true;
        }
        i = i + 1;
    }
    proof {
        if views(taken@).contains(name@) {
            let k = choose|k: int| 0 <= k < views(taken@).len() && views(taken@)[k] == name@;
            assert(taken@[k]@ == name@);
        }
    }
    false
}

/// The export file name to write for `stem` when the names in `taken` already exist:
/// `<stem>-<n>.csv` for the least `n` (from 1) that is free.
pub fn next_export_name(stem: &str, taken: &Vec<String>) -> (r: String)
    requires
        taken@.len() < 4294967295,
    ensures
        exists|n: nat|
            n >= 1 && r@ == export_name(stem@, n) && !views(taken@).contains(r@) && forall|m: nat|
                1 <= m < n ==> views(taken@).contains(#[trigger] export_name(stem@, m)),
{
    let mut n: u32 = 1;
    loop
        invariant
            1 <= n,
            taken@.len() < 4294967295,
            forall|m: nat| 1 <= m < n ==> views(taken@).contains(#[trigger] export_name(stem@, m)),
        decreases taken@.len() + 1 - n,
    {
        proof {
            lemma_taken_names_count(stem@, views(taken@), n as nat);
        }
        let name = csv_export_file_name(stem, n);
        if !is_taken(taken, name.as_str()) {
            assert(name@ == export_name(stem@, n as nat));
            return name;
        }
        proof {
            assert(views(taken@).contains(export_name(stem@, n as nat)));
            assert forall|m: nat| 1 <= m < n + 1 implies views(taken@).contains(
                #[trigger] export_name(stem@, m),
            ) by {
                if m < n {
                } else {
                    assert(m == n);
                }
            }
            lemma_taken_names_count(stem@, views(taken@), (n + 1) as nat);
        }
        n = n + 1;
    }
}

// ---- inline rename and folder edits ------------------------------------------------

/// A rename's new name: the trimmed text, which must not be empty.
pub fn rename_value(raw: &str) -> (r: Result<String, String>)
    ensures
        trim_seq(raw@).len() == 0 ==> (r matches Err(e) && e@ == "name must not be empty"@),
        trim_seq(raw@).len() > 0 ==> (r matches Ok(n) && n@ == trim_seq(raw@)),
{
    let t = trim_string(raw);
    if t.as_str().is_empty() {
        Err(String::from_str("name must not be empty"))
    } else {
        Ok(t)
    }
}

/// A folder edit's value: the trimmed text, where blank means no folder.
pub fn folder_value(raw: &str) -> (r: Option<String>)
    ensures
        trim_seq(raw@).len() == 0 ==> r is None,
        trim_seq(raw@).len() > 0 ==> (r matches Some(f) && f@ == trim_seq(raw@)),
{
    let t = trim_string(raw);
    if t.as_str().is_empty() {
        None
    } else {
        Some(t)
    }
}

/// `s` without any entry equal to `n`.
pub open spec fn without(s: Seq<Seq<char>>, n: Seq<char>) -> Seq<Seq<char>>
    decreases s.len(),
{
    if s.len() == 0 {
        s
    } else if s.last() == n {
        without(s.drop_last(), n)
    } else {
        without(s.drop_last(), n).push(s.last())
    }
}

proof fn lemma_without_contains(s: Seq<Seq<char>>, n: Seq<char>, x: Seq<char>)
    ensures
        without(s, n).contains(x) <==> (x != n && s.contains(x)),
    decreases s.len(),
{
    if s.len() > 0 {
        let d = s.drop_last();
        lemma_without_contains(d, n, x);
        if s.contains(x) {
            let w = choose|w: int| 0 <= w < s.len() && s[w] == x;
            if w < d.len() {
                assert(d[w] == x);
            }
        }
        if d.contains(x) {
            let w = choose|w: int| 0 <= w < d.len() && d[w] == x;
            assert(s[w] == x);
        }
        let r = without(d, n);
        if s.last() != n {
            let q = r.push(s.last());
            if q.contains(x) {
                let w = choose|w: int| 0 <= w < q.len() && q[w] == x;
                if w < r.len() {
                    assert(r[w] == x);
                }
            }
            if r.contains(x) {
                let w = choose|w: int| 0 <= w < r.len() && r[w] == x;
                assert(q[w] == x);
            }
            if x == s.last() {
                assert(q[r.len() as int] == x);
            }
        }
    }
}

/// `after` holds the names of `before` with `name` toggled: it leaves when it was there
/// and joins otherwise; every other name stays as it was.
pub open spec fn toggled(before: Seq<Seq<char>>, after: Seq<Seq<char>>, name: Seq<char>) -> bool {
    forall|x: Seq<char>|
        #[trigger] after.contains(x) <==> (if x == name {
            !before.contains(x)
        } else {
            before.contains(x)
        })
}

/// Toggling the same name twice gives back the same set of names: collapsing a folder
/// and expanding it again (or expanding a table and collapsing it) restores the view.
pub proof fn law_toggle_twice_restores(a: Seq<Seq<char>>, b: Seq<Seq<char>>, c: Seq<Seq<char>>, name: Seq<char>)
    requires
        toggled(a, b, name),
        toggled(b, c, name),
    ensures
        forall|x: Seq<char>| #[trigger] c.contains(x) <==> a.contains(x),
{
    assert forall|x: Seq<char>| #[trigger] c.contains(x) <==> a.contains(x) by {
        assert(c.contains(x) <==> (if x == name {
            !b.contains(x)
        } else {
            b.contains(x)
        }));
        assert(b.contains(x) <==> (if x == name {
            !a.contains(x)
        } else {
            a.contains(x)
        }));
    }
}

/// Collapse an expanded folder, or expand a collapsed one, as [`toggled`] says.
pub fn toggle_collapsed(collapsed: &mut Vec<String>, name: &str)
    ensures
        toggled(views(old(collapsed)@), views(final(collapsed)@), name@),
{
    let ghost before = views(collapsed@);
    if contains_name(collapsed, name) {
        let mut kept: Vec<String> = Vec::new();
        let mut i: usize = 0;
        assert(views(collapsed@).take(0) =~= Seq::<Seq<char>>::empty());
        while i < collapsed.len()
            invariant
                i <= collapsed.len(),
                before == views(collapsed@),
                views(kept@) == without(views(collapsed@).take(i as int), name@),
            decreases collapsed.len() - i,
        {
            let ghost kb = kept@;
            let ghost t = views(collapsed@).take(i + 1);
            assert(t.drop_last() =~= views(collapsed@).take(i as int));
            assert(t.last() == collapsed@[i as int]@);
            if !str_eq(collapsed[i].as_str(), name) {
                kept.push(collapsed[i].clone());
                assert(views(kept@) =~= views(kb).push(collapsed@[i as int]@));
            }
            i = i + 1;
        }
        assert(views(collapsed@).take(collapsed.len() as int) =~= views(collapsed@));
        proof {
            assert forall|x: Seq<char>| #[trigger] views(kept@).contains(x) <==> (if x == name@ {
                !before.contains(x)
            } else {
                before.contains(x)
            }) by {
                lemma_without_contains(before, name@, x);
            }
        }
        *collapsed = kept;
    } else {
        collapsed.push(String::from_str(name));
        proof {
            assert(views(collapsed@) =~= before.push(name@));
            assert forall|x: Seq<char>| #[trigger] views(collapsed@).contains(x) <==> (if x == name@ {
                !before.contains(x)
            } else {
                before.contains(x)
            }) by {
                if x == name@ {
                    assert(views(collapsed@)[before.len() as int] == x);
                } else if views(collapsed@).contains(x) {
                    let w = choose|w: int| 0 <= w < views(collapsed@).len() && views(collapsed@)[w] == x;
                    assert(before[w] == x);
                } else if before.contains(x) {
                    let w = choose|w: int| 0 <= w < before.len() && before[w] == x;
                    assert(views(collapsed@)[w] == x);
                }
            }
        }
    }
}


// ---- laws of the export, the folders and the quoting -----------------------------------

/// Lines joined in order, each followed by `\r\n`.
pub open spec fn crlf_lines(lines: Seq<Seq<char>>) -> Seq<char>
    decreases lines.len(),
{
    if lines.len() == 0 {
        Seq::empty()
    } else {
        lines[0] + "\r\n"@ + crlf_lines(lines.drop_first())
    }
}

proof fn lemma_crlf_lines_push(lines: Seq<Seq<char>>, x: Seq<char>)
    ensures
        crlf_lines(lines.push(x)) == crlf_lines(lines) + x + "\r\n"@,
    decreases lines.len(),
{
    if lines.len() == 0 {
        let l = lines.push(x);
        assert(l[0] == x);
        assert(l.drop_first() =~= Seq::<Seq<char>>::empty());
        assert(crlf_lines(l.drop_first()) == Seq::<char>::empty());
        assert(crlf_lines(lines) == Seq::<char>::empty());
        assert(crlf_lines(l) =~= crlf_lines(lines) + x + "\r\n"@);
    } else {
        assert(lines.push(x).drop_first() =~= lines.drop_first().push(x));
        lemma_crlf_lines_push(lines.drop_first(), x);
        assert(crlf_lines(lines.push(x)) =~= crlf_lines(lines) + x + "\r\n"@);
    }
}

/// Each data row's escaped CSV line.
pub open spec fn row_lines(rows: Seq<crate::model::Row>) -> Seq<Seq<char>> {
    rows.map_values(|r: crate::model::Row| csv_line(r@))
}

proof fn lemma_csv_rows_are_row_lines(rows: Seq<crate::model::Row>)
    ensures
        csv_rows(rows) == crlf_lines(row_lines(rows)),
    decreases rows.len(),
{
    if rows.len() > 0 {
        lemma_csv_rows_are_row_lines(rows.drop_last());
        assert(row_lines(rows) =~= row_lines(rows.drop_last()).push(csv_line(rows.last()@)));
        lemma_crlf_lines_push(row_lines(rows.drop_last()), csv_line(rows.last()@));
    } else {
        assert(row_lines(rows) =~= Seq::<Seq<char>>::empty());
    }
}

/// A page's header line: its column names, escaped and joined.
pub open spec fn header_line(page: QueryPage) -> Seq<char> {
    csv_line(page.columns@.map_values(|c: crate::model::DbColumn| c.name@))
}

/// The export keeps the page's order: it is the header line, then — line for line — the
/// escaped `k`-th row of the page as its `k + 1`-th line, each line `\r\n`-terminated.
pub proof fn law_export_lines_follow_the_page(page: QueryPage)
    ensures
        page_csv(page) == crlf_lines(seq![header_line(page)] + row_lines(page.rows@)),
        (seq![header_line(page)] + row_lines(page.rows@)).len() == page.rows@.len() + 1,
        forall|k: int|
            0 <= k < page.rows@.len() ==> (seq![header_line(page)] + row_lines(page.rows@))[k
                + 1] == csv_line(#[trigger] page.rows@[k]@),
{
    let lines = seq![header_line(page)] + row_lines(page.rows@);
    lemma_csv_rows_are_row_lines(page.rows@);
    assert(lines.drop_first() =~= row_lines(page.rows@));
    assert(page_csv(page) =~= crlf_lines(lines));
}

/// The ids of the connections grouped under folder `name`, in input order.
pub open spec fn folder_ids(conns: Seq<Attributed<DbConnection>>, name: Seq<char>) -> Seq<Seq<char>> {
    conns.filter(|a: Attributed<DbConnection>| folder_of(a.item) == Some(name)).map_values(
        |a: Attributed<DbConnection>| a.item.id@,
    )
}

/// A folder's members are exactly the connections whose folder is that name, in the
/// order the input lists them.
pub proof fn law_folder_members_keep_input_order(conns: Seq<Attributed<DbConnection>>, name: Seq<char>)
    ensures
        members(conns, name) == folder_ids(conns, name),
    decreases conns.len(),
{
    reveal(Seq::filter);
    if conns.len() > 0 {
        law_folder_members_keep_input_order(conns.drop_last(), name);
        let pred = |a: Attributed<DbConnection>| folder_of(a.item) == Some(name);
        let f = |a: Attributed<DbConnection>| a.item.id@;
        let sub = conns.drop_last().filter(pred);
        if pred(conns.last()) {
            assert(conns.filter(pred) == sub.push(conns.last()));
            assert(sub.push(conns.last()).map_values(f) =~= sub.map_values(f).push(f(conns.last())));
        } else {
            assert(conns.filter(pred) == sub);
        }
    } else {
        assert(folder_ids(conns, name) =~= Seq::<Seq<char>>::empty());
    }
}

/// The connections panel's leading rows are exactly the connections in no folder, in
/// input order.
pub proof fn law_ungrouped_rows_keep_input_order(conns: Seq<Attributed<DbConnection>>)
    ensures
        ungrouped_rows(conns) == conns.filter(|a: Attributed<DbConnection>| folder_of(a.item) is None).map_values(
            |a: Attributed<DbConnection>| ConnRowView::Connection(a.item.id@),
        ),
    decreases conns.len(),
{
    reveal(Seq::filter);
    let pred = |a: Attributed<DbConnection>| folder_of(a.item) is None;
    let f = |a: Attributed<DbConnection>| ConnRowView::Connection(a.item.id@);
    if conns.len() > 0 {
        law_ungrouped_rows_keep_input_order(conns.drop_last());
        let sub = conns.drop_last().filter(pred);
        if pred(conns.last()) {
            assert(conns.filter(pred) == sub.push(conns.last()));
            assert(sub.push(conns.last()).map_values(f) =~= sub.map_values(f).push(f(conns.last())));
        } else {
            assert(conns.filter(pred) == sub);
        }
    } else {
        assert(conns.filter(pred).map_values(f) =~= Seq::<ConnRowView>::empty());
    }
}

/// A folder's block is its header — expanded unless its name is collapsed, counting
/// every connection in the folder — followed, when expanded, by exactly those
/// connections in input order.
pub proof fn law_folder_block_lists_its_members(
    conns: Seq<Attributed<DbConnection>>,
    name: Seq<char>,
    collapsed: Seq<Seq<char>>,
)
    ensures
        folder_block(conns, name, collapsed) == seq![
            ConnRowView::Folder(name, !collapsed.contains(name), folder_ids(conns, name).len()),
        ] + if !collapsed.contains(name) {
            folder_ids(conns, name).map_values(|id: Seq<char>| ConnRowView::Connection(id))
        } else {
            Seq::empty()
        },
{
    law_folder_members_keep_input_order(conns, name);
}

/// A character of a bare SQL identifier: an ASCII letter, digit or `_`.
pub open spec fn word_char(c: char) -> bool {
    ('a' <= c && c <= 'z') || ('A' <= c && c <= 'Z') || ('0' <= c && c <= '9') || c == '_'
}

/// A segment goes out bare only when it is `[A-Za-z_][A-Za-z0-9_]*`; any other segment
/// — one with a space, a `-`, a quote or any non-ASCII character, an empty one, or one
/// starting with a digit — comes out wrapped in double quotes.
pub proof fn law_only_word_segments_go_bare(seg: Seq<char>)
    ensures
        (seg.len() > 0 && !('0' <= seg[0] && seg[0] <= '9') && forall|k: int|
            0 <= k < seg.len() ==> word_char(#[trigger] seg[k])) ==> quote_segment(seg) == seg,
        !(seg.len() > 0 && !('0' <= seg[0] && seg[0] <= '9') && forall|k: int|
            0 <= k < seg.len() ==> word_char(#[trigger] seg[k])) ==> ({
            let q = quote_segment(seg);
            &&& q.len() >= 2
            &&& q[0] == '"'
            &&& q.last() == '"'
        }),
{
    let word = seg.len() > 0 && !('0' <= seg[0] && seg[0] <= '9') && forall|k: int|
        0 <= k < seg.len() ==> word_char(#[trigger] seg[k]);
    if word {
        assert(word_char(seg[0]));
        assert forall|k: int| 0 <= k < seg.len() implies ident_char(#[trigger] seg[k]) by {
            assert(word_char(seg[k]));
        }
        assert(plain_ident(seg));
    } else {
        if plain_ident(seg) {
            assert forall|k: int| 0 <= k < seg.len() implies word_char(#[trigger] seg[k]) by {
                assert(ident_char(seg[k]));
            }
            assert(ident_start(seg[0]));
        }
        assert(!plain_ident(seg));
    }
}

proof fn lemma_split_without_separator(s: Seq<char>)
    requires
        forall|k: int| 0 <= k < s.len() ==> #[trigger] s[k] != '.',
    ensures
        split_by(s, crate::text::char_sep('.')) == seq![s],
    decreases s.len(),
{
    if s.len() == 0 {
        assert(s =~= Seq::<char>::empty());
        assert(split_by(s, crate::text::char_sep('.')) =~= seq![s]);
    } else {
        lemma_split_without_separator(s.drop_last());
        let sep = crate::text::char_sep('.');
        assert(s.last() == s[s.len() - 1]);
        assert(!sep(s.last()));
        let r = split_by(s.drop_last(), sep);
        assert(r == seq![s.drop_last()]);
        assert(s.drop_last().push(s.last()) =~= s);
        assert(r.update(r.len() - 1, r.last().push(s.last())) =~= seq![s]);
        assert(split_by(s, sep) == r.update(r.len() - 1, r.last().push(s.last())));
    }
}

/// A table name without a `.` is quoted as one segment: it goes out bare only when it
/// is `[A-Za-z_][A-Za-z0-9_]*`, and otherwise wrapped in double quotes — so
/// `user-events` becomes `"user-events"`, never the bare `user-events`.
pub proof fn law_a_dotless_name_is_one_quoted_segment(name: Seq<char>)
    requires
        forall|k: int| 0 <= k < name.len() ==> #[trigger] name[k] != '.',
    ensures
        quote_ident_spec(name) == quote_segment(name),
        !(name.len() > 0 && !('0' <= name[0] && name[0] <= '9') && forall|k: int|
            0 <= k < name.len() ==> word_char(#[trigger] name[k])) ==> ({
            let q = quote_ident_spec(name);
            &&& q.len() >= 2
            &&& q[0] == '"'
            &&& q.last() == '"'
        }),
        (name.len() > 0 && !('0' <= name[0] && name[0] <= '9') && forall|k: int|
            0 <= k < name.len() ==> word_char(#[trigger] name[k])) ==> quote_ident_spec(name) == name,
{
    lemma_split_without_separator(name);
    let parts = seq![name].map_values(|g: Seq<char>| quote_segment(g));
    assert(parts =~= seq![quote_segment(name)]);
    assert(join_with(parts, "."@) == quote_segment(name));
    law_only_word_segments_go_bare(name);
}

} // verus!
