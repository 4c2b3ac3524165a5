//! The schema diagram: its tables (with their primary- and foreign-key columns), the
//! foreign-key edges between them, and the initial layout — table boxes ordered by how
//! many foreign keys touch them, stacked in columns of fixed height, in whole pixels.

use vstd::prelude::*;
use crate::order::{SortKey, KeyView, key_views, stable_order, is_permutation, sorted_by_keys};
use crate::text::{chars_of, views, copy_strings, str_eq, push_all};
use crate::numeral::{decimal, decimal_string};
use crate::model::{SchemaInfo, TableInfo, DbColumn};
use crate::db_tab::{display_name, table_display_name, contains_name};

verus! {

/// A table box's width.
pub const BOX_WIDTH: u64 = 220;
/// A box's header height.
pub const HEADER_HEIGHT: u64 = 26;
/// One column row's height.
pub const ROW_HEIGHT: u64 = 20;
/// The most column rows a box lists before a "+N more" row.
pub const MAX_VISIBLE_COLUMNS: usize = 14;
/// Horizontal gap between box columns.
pub const GAP_X: u64 = 60;
/// Vertical gap between stacked boxes.
pub const GAP_Y: u64 = 40;
/// How many boxes a layout column holds before the next column starts.
pub const BOXES_PER_COLUMN: usize = 4;
/// The margin around the whole layout.
pub const MARGIN: u64 = 40;

/// A box's height for a table of `n` columns: the header plus one row per column (at
/// least one row), capped at [`MAX_VISIBLE_COLUMNS`] rows plus the "+N more" row.
pub open spec fn box_height_spec(n: int) -> int {
    let rows = if n > MAX_VISIBLE_COLUMNS {
        MAX_VISIBLE_COLUMNS + 1
    } else if n < 1 {
        1
    } else {
        n
    };
    HEADER_HEIGHT + rows * ROW_HEIGHT
}

/// A box's height for a table of `column_count` columns.
pub fn box_height(column_count: usize) -> (h: u64)
    ensures
        h as int == box_height_spec(column_count as int),
        h <= 326,
{
    let rows: u64 = if column_count > MAX_VISIBLE_COLUMNS {
        15
    } else if column_count < 1 {
        1
    } else {
        column_count as u64
    };
    HEADER_HEIGHT + rows * ROW_HEIGHT
}

/// What the layout needs of a table.
#[derive(Clone, Debug, PartialEq, Eq)]
pub struct LayoutInput {
    /// The table's display name.
    pub key: String,
    /// How many foreign-key edges touch it (either side).
    pub degree: usize,
    pub column_count: usize,
}

/// A box's position.
#[derive(Clone, Debug, PartialEq, Eq)]
pub struct Placement {
    pub key: String,
    pub x: u128,
    pub y: u64,
}

/// The layout's ordering key: higher degree first, then key ascending.
pub open spec fn layout_key(t: LayoutInput) -> KeyView {
    KeyView { rank: 18446744073709551615 - t.degree as int, text: t.key@ }
}

/// The `x` of the `ix`-th placed box: its layout column's left edge.
pub open spec fn placed_x(ix: int) -> int {
    MARGIN + (ix / (BOXES_PER_COLUMN as int)) * (BOX_WIDTH + GAP_X)
}

/// The `y` of the `ix`-th placed box, given the placed boxes' heights: the top margin
/// for the first box of a column, else just below the box above it.
pub open spec fn placed_y(heights: Seq<int>, ix: int) -> int
    decreases ix,
{
    if ix <= 0 || ix % (BOXES_PER_COLUMN as int) == 0 {
        MARGIN as int
    } else {
        placed_y(heights, ix - 1) + heights[ix - 1] + GAP_Y
    }
}

/// The deterministic initial layout: the tables ordered by foreign-key degree, highest
/// first (ties by key ascending, then input order), placed in columns of
/// [`BOXES_PER_COLUMN`] boxes, each box stacked below the one above it by that box's
/// height. The result lists every table once, in placement order.
pub open spec fn laid_out(tables: Seq<LayoutInput>, out: Seq<Placement>) -> bool {
    exists|p: Seq<usize>|
        is_permutation(p, tables.len() as int) && sorted_by_keys(
            p,
            tables.map_values(|t: LayoutInput| layout_key(t)),
            false,
        ) && out.len() == tables.len() && forall|ix: int|
            0 <= ix < out.len() ==> {
                &&& (#[trigger] out[ix]).key@ == tables[p[ix] as int].key@
                &&& out[ix].x as int == placed_x(ix)
                &&& out[ix].y as int == placed_y(
                    p.map_values(|k: usize| box_height_spec(tables[k as int].column_count as int)),
                    ix,
                )
            }
}

/// The deterministic initial layout, as [`laid_out`] says.
pub fn compute_initial_layout(tables: &Vec<LayoutInput>) -> (out: Vec<Placement>)
    ensures
        laid_out(tables@, out@),
{
    let ghost kspec = tables@.map_values(|t: LayoutInput| layout_key(t));
    let mut keys: Vec<SortKey> = Vec::new();
    let mut i: usize = 0;
    while i < tables.len()
        invariant
            i <= tables.len(),
            keys@.len() == i,
            forall|j: int| 0 <= j < i ==> (#[trigger] keys@[j])@ == layout_key(tables@[j]),
        decreases tables.len() - i,
    {
        keys.push(
            SortKey {
                rank: 18446744073709551615u64 - tables[i].degree as u64,
                text: chars_of(tables[i].key.as_str()),
            },
        );
        i = i + 1;
    }
    assert(key_views(keys@) =~= kspec);
    let p = stable_order(&keys, false);
    let ghost hs = p@.map_values(|k: usize| box_height_spec(tables@[k as int].column_count as int));
    let mut out: Vec<Placement> = Vec::new();
    let mut y: u64 = MARGIN;
    let mut ix: usize = 0;
    while ix < p.len()
        invariant
            ix <= p.len(),
            p@.len() == tables@.len(),
            forall|j: int| 0 <= j < p@.len() ==> #[trigger] p@[j] < tables@.len(),
            hs == p@.map_values(|k: usize| box_height_spec(tables@[k as int].column_count as int)),
            out@.len() == ix,
            y <= MARGIN + (ix as int % 4) * 366,
            ix < p.len() ==> y as int == placed_y(hs, ix as int),
            forall|j: int|
                0 <= j < ix ==> {
                    &&& (#[trigger] out@[j]).key@ == tables@[p@[j] as int].key@
                    &&& out@[j].x as int == placed_x(j)
                    &&& out@[j].y as int == placed_y(hs, j)
                },
        decreases p.len() - ix,
    {
        let t = &tables[p[ix]];
        let col: u128 = (ix / BOXES_PER_COLUMN) as u128;
        assert(col * 280 <= 280 * (ix as int)) by (nonlinear_arith)
            requires
                col <= ix,
        ;
        let x: u128 = 40 + col * 280;
        out.push(Placement { key: t.key.clone(), x, y });
        let h = box_height(t.column_count);
        proof {
            assert(hs[ix as int] == h as int);
        }
        let next = ix + 1;
        if next % BOXES_PER_COLUMN == 0 {
            y = MARGIN;
        } else {
            assert(ix % 4 < 3);
            assert(next as int % 4 == ix as int % 4 + 1);
            y = y + h + GAP_Y;
        }
        ix = next;
    }
    assert(exists|q: Seq<usize>|
        is_permutation(q, tables@.len() as int) && sorted_by_keys(q, kspec, false) && out@.len()
            == tables@.len() && forall|j: int|
            0 <= j < out@.len() ==> {
                &&& (#[trigger] out@[j]).key@ == tables@[q[j] as int].key@
                &&& out@[j].x as int == placed_x(j)
                &&& out@[j].y as int == placed_y(
                    q.map_values(|k: usize| box_height_spec(tables@[k as int].column_count as int)),
                    j,
                )
            }) by {
        assert(is_permutation(p@, tables@.len() as int));
    }
    out
}

// ---- the diagram's content ---------------------------------------------------------

/// A foreign key: which columns of `from_table` reference which of `to_table`.
#[derive(Clone, Debug, PartialEq, Eq)]
pub struct ForeignKey {
    pub from_table: String,
    pub from_columns: Vec<String>,
    pub to_table: String,
    pub to_columns: Vec<String>,
}

/// A database's relationships: its foreign keys, and each table's primary-key columns
/// (keyed by the table's display name).
#[derive(Clone, Debug, PartialEq, Eq)]
pub struct SchemaGraph {
    pub foreign_keys: Vec<ForeignKey>,
    pub primary_keys: Vec<(String, Vec<String>)>,
}

/// One table box: its display name, its columns, and which column names are primary
/// keys or take part in a foreign key.
#[derive(Debug, PartialEq, Eq)]
pub struct DiagramTable {
    pub key: String,
    pub columns: Vec<String>,
    pub pk: Vec<String>,
    pub fk_columns: Vec<String>,
}

/// One foreign-key edge between two boxes; `self_ref` when a table references itself.
#[derive(Debug, PartialEq, Eq)]
pub struct DiagramEdge {
    pub from_table: String,
    pub to_table: String,
    pub self_ref: bool,
}

/// The diagram: its boxes, its edges, where each box starts out, and the selected box.
/// Moving boxes with the pointer is the window's business.
#[derive(Debug)]
pub struct DiagramView {
    pub tables: Vec<DiagramTable>,
    pub edges: Vec<DiagramEdge>,
    pub positions: Vec<Placement>,
    pub selected: Option<String>,
}

/// The primary-key columns listed for `key`: the first entry naming it, or none.
pub open spec fn pk_of(pks: Seq<(String, Vec<String>)>, key: Seq<char>) -> Seq<Seq<char>>
    decreases pks.len(),
{
    if pks.len() == 0 {
        Seq::empty()
    } else if pks[0].0@ == key {
        views(pks[0].1@)
    } else {
        pk_of(pks.drop_first(), key)
    }
}

/// The columns of `key` that take part in a foreign key, in key order: each key's
/// referencing columns when it starts at `key`, then its referenced columns when it
/// ends there.
pub open spec fn fk_cols(fks: Seq<ForeignKey>, key: Seq<char>) -> Seq<Seq<char>>
    decreases fks.len(),
{
    if fks.len() == 0 {
        Seq::empty()
    } else {
        let fk = fks.last();
        fk_cols(fks.drop_last(), key) + (if fk.from_table@ == key {
            views(fk.from_columns@)
        } else {
            Seq::empty()
        }) + (if fk.to_table@ == key {
            views(fk.to_columns@)
        } else {
            Seq::empty()
        })
    }
}

/// An edge as its two endpoints and whether it loops.
pub open spec fn edge_view(e: DiagramEdge) -> (Seq<char>, Seq<char>, bool) {
    (e.from_table@, e.to_table@, e.self_ref)
}

/// The edges of the foreign keys whose both ends are among `keys`, in key order.
pub open spec fn edges_of(fks: Seq<ForeignKey>, keys: Seq<Seq<char>>) -> Seq<(Seq<char>, Seq<char>, bool)>
    decreases fks.len(),
{
    if fks.len() == 0 {
        Seq::empty()
    } else {
        let fk = fks.last();
        let rest = edges_of(fks.drop_last(), keys);
        if keys.contains(fk.from_table@) && keys.contains(fk.to_table@) {
            rest.push((fk.from_table@, fk.to_table@, fk.from_table@ == fk.to_table@))
        } else {
            rest
        }
    }
}

/// How many edges touch `key` (either end).
pub open spec fn degree_of(edges: Seq<(Seq<char>, Seq<char>, bool)>, key: Seq<char>) -> nat
    decreases edges.len(),
{
    if edges.len() == 0 {
        0
    } else {
        degree_of(edges.drop_last(), key) + (if edges.last().0 == key || edges.last().1 == key {
            1nat
        } else {
            0nat
        })
    }
}

/// How many self-referencing edges `key` has.
pub open spec fn loops_of(edges: Seq<(Seq<char>, Seq<char>, bool)>, key: Seq<char>) -> nat
    decreases edges.len(),
{
    if edges.len() == 0 {
        0
    } else {
        loops_of(edges.drop_last(), key) + (if edges.last().2 && edges.last().0 == key {
            1nat
        } else {
            0nat
        })
    }
}

/// A box shows table `t` of the snapshot with its key columns from `graph`.
pub open spec fn box_of(d: DiagramTable, t: TableInfo, graph: SchemaGraph) -> bool {
    let key = display_name(t);
    &&& d.key@ == key
    &&& views(d.columns@) == t.columns@.map_values(|c: DbColumn| c.name@)
    &&& views(d.pk@) == pk_of(graph.primary_keys@, key)
    &&& views(d.fk_columns@) == fk_cols(graph.foreign_keys@, key)
}

/// The display names of a snapshot's tables.
pub open spec fn table_keys(tables: Seq<TableInfo>) -> Seq<Seq<char>> {
    tables.map_values(|t: TableInfo| display_name(t))
}

/// What the layout is given for box `i`: its key, its edge count and its column count.
pub open spec fn inputs_for(
    inputs: Seq<LayoutInput>,
    tables: Seq<TableInfo>,
    edges: Seq<(Seq<char>, Seq<char>, bool)>,
) -> bool {
    &&& inputs.len() == tables.len()
    &&& forall|i: int|
        0 <= i < tables.len() ==> {
            &&& (#[trigger] inputs[i]).key@ == display_name(tables[i])
            &&& inputs[i].degree == degree_of(edges, display_name(tables[i]))
            &&& inputs[i].column_count == tables[i].columns@.len()
        }
}

fn append_strings(out: &mut Vec<String>, v: &Vec<String>)
    ensures
        views(final(out)@) == views(old(out)@) + views(v@),
{
    let ghost start = views(out@);
    let mut i: usize = 0;
    while i < v.len()
        invariant
            i <= v.len(),
            views(out@) == start + views(v@).take(i as int),
        decreases v.len() - i,
    {
        let ghost before = out@;
        out.push(v[i].clone());
        assert(views(out@) =~= views(before).push(v@[i as int]@));
        i = i + 1;
        assert(views(out@) =~= start + views(v@).take(i as int));
    }
    assert(views(v@).take(v.len() as int) =~= views(v@));
}

fn lookup_pk(pks: &Vec<(String, Vec<String>)>, key: &str) -> (r: Vec<String>)
    ensures
        views(r@) == pk_of(pks@, key@),
{
    let mut i: usize = 0;
    assert(pks@.skip(0) =~= pks@);
    while i < pks.len()
        invariant
            i <= pks.len(),
            pk_of(pks@, key@) == pk_of(pks@.skip(i as int), key@),
        decreases pks.len() - i,
    {
        assert(pks@.skip(i as int).drop_first() =~= pks@.skip(i + 1));
        if str_eq(pks[i].0.as_str(), key) {
            let r = copy_strings(&pks[i].1);
            return r;
        }
        i = i + 1;
    }
    Vec::new()
}

fn collect_fk_columns(fks: &Vec<ForeignKey>, key: &str) -> (r: Vec<String>)
    ensures
        views(r@) == fk_cols(fks@, key@),
{
    let mut r: Vec<String> = Vec::new();
    let mut i: usize = 0;
    while i < fks.len()
        invariant
            i <= fks.len(),
            views(r@) == fk_cols(fks@.take(i as int), key@),
        decreases fks.len() - i,
    {
        let fk = &fks[i];
        let ghost t = fks@.take(i + 1);
        assert(t.drop_last() =~= fks@.take(i as int));
        assert(t.last() == fks@[i as int]);
        if str_eq(fk.from_table.as_str(), key) {
            append_strings(&mut r, &fk.from_columns);
        }
        if str_eq(fk.to_table.as_str(), key) {
            append_strings(&mut r, &fk.to_columns);
        }
        proof {
            let a = if fk.from_table@ == key@ { views(fk.from_columns@) } else { Seq::empty() };
            let b = if fk.to_table@ == key@ { views(fk.to_columns@) } else { Seq::empty() };
            assert(views(r@) =~= fk_cols(fks@.take(i as int), key@) + a + b);
        }
        i = i + 1;
    }
    assert(fks@.take(fks.len() as int) =~= fks@);
    r
}

fn column_names(columns: &Vec<DbColumn>) -> (r: Vec<String>)
    ensures
        views(r@) == columns@.map_values(|c: DbColumn| c.name@),
{
    let mut r: Vec<String> = Vec::new();
    let mut i: usize = 0;
    while i < columns.len()
        invariant
            i <= columns.len(),
            views(r@) == columns@.take(i as int).map_values(|c: DbColumn| c.name@),
        decreases columns.len() - i,
    {
        let ghost before = r@;
        r.push(columns[i].name.clone());
        assert(views(r@) =~= views(before).push(columns@[i as int].name@));
        i = i + 1;
        assert(columns@.take(i as int).map_values(|c: DbColumn| c.name@) =~= columns@.take(
            i - 1,
        ).map_values(|c: DbColumn| c.name@).push(columns@[i - 1].name@));
    }
    assert(columns@.take(columns.len() as int) =~= columns@);
    r
}

/// The views of a list of edges.
pub open spec fn edge_views(edges: Seq<DiagramEdge>) -> Seq<(Seq<char>, Seq<char>, bool)> {
    edges.map_values(|e: DiagramEdge| edge_view(e))
}

fn count_degree(edges: &Vec<DiagramEdge>, key: &str) -> (n: usize)
    ensures
        n == degree_of(edge_views(edges@), key@),
{
    let mut n: usize = 0;
    let mut i: usize = 0;
    while i < edges.len()
        invariant
            i <= edges.len(),
            n == degree_of(edge_views(edges@.take(i as int)), key@),
            n <= i,
        decreases edges.len() - i,
    {
        let ghost t = edge_views(edges@.take(i + 1));
        assert(t.drop_last() =~= edge_views(edges@.take(i as int)));
        if str_eq(edges[i].from_table.as_str(), key) || str_eq(edges[i].to_table.as_str(), key) {
            n = n + 1;
        }
        i = i + 1;
    }
    assert(edges@.take(edges.len() as int) =~= edges@);
    n
}

impl DiagramView {
    /// The diagram of a schema snapshot: one box per table, in the snapshot's order,
    /// with its primary-key columns and the columns its foreign keys name; one edge per
    /// foreign key whose both ends are tables of the snapshot (others are dropped); and
    /// the initial layout of the boxes by edge count. Nothing is selected.
    pub fn new(schema: &SchemaInfo, graph: &SchemaGraph) -> (d: DiagramView)
        ensures
            d.tables@.len() == schema.tables@.len(),
            forall|i: int|
                0 <= i < d.tables@.len() ==> box_of(
                    #[trigger] d.tables@[i],
                    schema.tables@[i],
                    *graph,
                ),
            edge_views(d.edges@) == edges_of(graph.foreign_keys@, table_keys(schema.tables@)),
            exists|inputs: Seq<LayoutInput>|
                #![trigger inputs_for(inputs, schema.tables@, edge_views(d.edges@))]
                inputs_for(inputs, schema.tables@, edge_views(d.edges@)) && laid_out(
                    inputs,
                    d.positions@,
                ),
            d.selected is None,
    {
        let mut tables: Vec<DiagramTable> = Vec::new();
        let mut keys: Vec<String> = Vec::new();
        let mut i: usize = 0;
        while i < schema.tables.len()
            invariant
                i <= schema.tables.len(),
                tables@.len() == i,
                views(keys@) == table_keys(schema.tables@.take(i as int)),
                forall|k: int|
                    0 <= k < i ==> box_of(#[trigger] tables@[k], schema.tables@[k], *graph),
            decreases schema.tables.len() - i,
        {
            let t = &schema.tables[i];
            let key = table_display_name(t);
            let columns = column_names(&t.columns);
            let pk = lookup_pk(&graph.primary_keys, key.as_str());
            let fk_columns = collect_fk_columns(&graph.foreign_keys, key.as_str());
            let ghost kb = keys@;
            keys.push(key.clone());
            assert(views(keys@) =~= views(kb).push(key@));
            tables.push(DiagramTable { key, columns, pk, fk_columns });
            i = i + 1;
            assert(table_keys(schema.tables@.take(i as int)) =~= table_keys(
                schema.tables@.take(i - 1),
            ).push(display_name(schema.tables@[i - 1])));
        }
        assert(schema.tables@.take(schema.tables.len() as int) =~= schema.tables@);
        let ghost all_keys = table_keys(schema.tables@);
        let mut edges: Vec<DiagramEdge> = Vec::new();
        let mut j: usize = 0;
        while j < graph.foreign_keys.len()
            invariant
                j <= graph.foreign_keys.len(),
                views(keys@) == all_keys,
                edge_views(edges@) == edges_of(graph.foreign_keys@.take(j as int), all_keys),
            decreases graph.foreign_keys.len() - j,
        {
            let fk = &graph.foreign_keys[j];
            let ghost t = graph.foreign_keys@.take(j + 1);
            assert(t.drop_last() =~= graph.foreign_keys@.take(j as int));
            assert(t.last() == graph.foreign_keys@[j as int]);
            if contains_name(&keys, fk.from_table.as_str()) && contains_name(
                &keys,
                fk.to_table.as_str(),
            ) {
                let self_ref = str_eq(fk.from_table.as_str(), fk.to_table.as_str());
                let ghost eb = edges@;
                edges.push(
                    DiagramEdge {
                        from_table: fk.from_table.clone(),
                        to_table: fk.to_table.clone(),
                        self_ref,
                    },
                );
                assert(edge_views(edges@) =~= edge_views(eb).push(
                    (fk.from_table@, fk.to_table@, fk.from_table@ == fk.to_table@),
                ));
            }
            j = j + 1;
        }
        assert(graph.foreign_keys@.take(graph.foreign_keys.len() as int) =~= graph.foreign_keys@);
        let mut inputs: Vec<LayoutInput> = Vec::new();
        let mut k: usize = 0;
        while k < tables.len()
            invariant
                k <= tables.len(),
                tables@.len() == schema.tables@.len(),
                forall|m: int|
                    0 <= m < tables@.len() ==> box_of(#[trigger] tables@[m], schema.tables@[m], *graph),
                inputs@.len() == k,
                forall|m: int|
                    0 <= m < k ==> {
                        &&& (#[trigger] inputs@[m]).key@ == display_name(schema.tables@[m])
                        &&& inputs@[m].degree == degree_of(
                            edge_views(edges@),
                            display_name(schema.tables@[m]),
                        )
                        &&& inputs@[m].column_count == schema.tables@[m].columns@.len()
                    },
            decreases tables.len() - k,
        {
            let t = &tables[k];
            assert(box_of(tables@[k as int], schema.tables@[k as int], *graph));
            let degree = count_degree(&edges, t.key.as_str());
            inputs.push(
                LayoutInput { key: t.key.clone(), degree, column_count: t.columns.len() },
            );
            proof {
                assert(views(t.columns@).len() == t.columns@.len());
            }
            k = k + 1;
        }
        let positions = compute_initial_layout(&inputs);
        let d = DiagramView { tables, edges, positions, selected: None };
        assert(inputs_for(inputs@, schema.tables@, edge_views(d.edges@)) && laid_out(
            inputs@,
            d.positions@,
        ));
        d
    }

    /// How many self-referencing foreign keys `key` has (its box shows `↺ N`).
    pub fn self_ref_count(&self, key: &str) -> (n: usize)
        ensures
            n == loops_of(edge_views(self.edges@), key@),
    {
        let mut n: usize = 0;
        let mut i: usize = 0;
        while i < self.edges.len()
            invariant
                i <= self.edges.len(),
                n == loops_of(edge_views(self.edges@.take(i as int)), key@),
                n <= i,
            decreases self.edges.len() - i,
        {
            let ghost t = edge_views(self.edges@.take(i + 1));
            assert(t.drop_last() =~= edge_views(self.edges@.take(i as int)));
            if self.edges[i].self_ref && str_eq(self.edges[i].from_table.as_str(), key) {
                n = n + 1;
            }
            i = i + 1;
        }
        assert(self.edges@.take(self.edges.len() as int) =~= self.edges@);
        n
    }

    /// The header's summary, `N tables · M relationships`, and — with no edges — the
    /// hint that only the layout is shown.
    pub fn header_texts(&self) -> (r: (String, Option<&'static str>))
        ensures
            r.0@ == decimal(self.tables@.len()) + " tables · "@ + decimal(self.edges@.len())
                + " relationships"@,
            self.edges@.len() == 0 ==> (r.1 matches Some(h) && h@
                == "no foreign keys detected — showing table layout only"@),
            self.edges@.len() > 0 ==> r.1 is None,
    {
        let mut s = decimal_string(self.tables.len() as u128);
        push_all(&mut s, &chars_of(" tables · "));
        let m = decimal_string(self.edges.len() as u128);
        push_all(&mut s, &chars_of(m.as_str()));
        push_all(&mut s, &chars_of(" relationships"));
        let hint = if self.edges.len() == 0 {
            Some("no foreign keys detected — showing table layout only")
        } else {
            None
        };
        (s, hint)
    }

    /// Select the box of `key` (a press on its header).
    pub fn select(&mut self, key: String)
        ensures
            final(self).selected == Some(key),
            final(self).tables == old(self).tables,
            final(self).edges == old(self).edges,
            final(self).positions == old(self).positions,
    {
        self.selected = Some(key);
    }
}

/// One column row of a box: its label (`[pk] name` for a primary key) and whether it
/// is a primary or foreign key.
#[derive(Debug, PartialEq, Eq)]
pub struct ColumnRow {
    pub label: String,
    pub is_pk: bool,
    pub is_fk: bool,
}

/// The column rows a box lists: its first [`MAX_VISIBLE_COLUMNS`] columns.
pub fn column_rows(t: &DiagramTable) -> (rows: Vec<ColumnRow>)
    ensures
        rows@.len() == if t.columns@.len() > MAX_VISIBLE_COLUMNS {
            MAX_VISIBLE_COLUMNS as int
        } else {
            t.columns@.len() as int
        },
        forall|i: int|
            0 <= i < rows@.len() ==> {
                let c = t.columns@[i]@;
                &&& (#[trigger] rows@[i]).is_pk == views(t.pk@).contains(c)
                &&& rows@[i].is_fk == views(t.fk_columns@).contains(c)
                &&& rows@[i].label@ == (if rows@[i].is_pk {
                    "[pk] "@ + c
                } else {
                    c
                })
            },
{
    let n = if t.columns.len() > MAX_VISIBLE_COLUMNS {
        MAX_VISIBLE_COLUMNS
    } else {
        t.columns.len()
    };
    let mut rows: Vec<ColumnRow> = Vec::new();
    let mut i: usize = 0;
    while i < n
        invariant
            i <= n,
            n <= t.columns@.len(),
            n == if t.columns@.len() > MAX_VISIBLE_COLUMNS {
                MAX_VISIBLE_COLUMNS as int
            } else {
                t.columns@.len() as int
            },
            rows@.len() == i,
            forall|k: int|
                0 <= k < i ==> {
                    let c = t.columns@[k]@;
                    &&& (#[trigger] rows@[k]).is_pk == views(t.pk@).contains(c)
                    &&& rows@[k].is_fk == views(t.fk_columns@).contains(c)
                    &&& rows@[k].label@ == (if rows@[k].is_pk {
                        "[pk] "@ + c
                    } else {
                        c
                    })
                },
        decreases n - i,
    {
        let col = &t.columns[i];
        let is_pk = contains_name(&t.pk, col.as_str());
        let is_fk = contains_name(&t.fk_columns, col.as_str());
        let label = if is_pk {
            let mut l = String::from_str("[pk] ");
            push_all(&mut l, &chars_of(col.as_str()));
            l
        } else {
            col.clone()
        };
        rows.push(ColumnRow { label, is_pk, is_fk });
        i = i + 1;
    }
    rows
}

/// The row closing a box with more columns than it lists: `+N more`.
pub fn overflow_note(column_count: usize) -> (r: Option<String>)
    ensures
        column_count <= MAX_VISIBLE_COLUMNS ==> r is None,
        column_count > MAX_VISIBLE_COLUMNS ==> (r matches Some(s) && s@ == "+"@ + decimal(
            (column_count - MAX_VISIBLE_COLUMNS) as nat,
        ) + " more"@),
{
    if column_count <= MAX_VISIBLE_COLUMNS {
        return None;
    }
    let mut s = String::from_str("+");
    let n = decimal_string((column_count - MAX_VISIBLE_COLUMNS) as u128);
    push_all(&mut s, &chars_of(n.as_str()));
    push_all(&mut s, &chars_of(" more"));
    Some(s)
}


// ---- laws of the layout ------------------------------------------------------------------

proof fn lemma_same_layout_column(i: int, j: int)
    requires
        0 <= i < j,
        i / 4 == j / 4,
    ensures
        j % 4 != 0,
        (j - 1) / 4 == j / 4,
{
    assert(j % 4 != 0 && (j - 1) / 4 == j / 4) by (nonlinear_arith)
        requires
            0 <= i < j,
            i / 4 == j / 4,
    ;
}

proof fn lemma_placed_y_below(heights: Seq<int>, i: int, j: int)
    requires
        0 <= i < j <= heights.len(),
        i / 4 == j / 4,
        forall|k: int| 0 <= k < heights.len() ==> #[trigger] heights[k] >= 0,
    ensures
        placed_y(heights, j) >= placed_y(heights, i) + heights[i] + GAP_Y,
    decreases j - i,
{
    lemma_same_layout_column(i, j);
    if j - 1 > i {
        lemma_placed_y_below(heights, i, j - 1);
    }
}

/// Placed boxes never overlap: every box of layout column `c` sits at
/// `x = MARGIN + c * (BOX_WIDTH + GAP_X)`, so a later column starts at least a box width
/// and a gap to the right of an earlier one; within a column each box starts below the
/// whole box above it, a gap further down.
pub proof fn law_placed_boxes_never_overlap(tables: Seq<LayoutInput>, out: Seq<Placement>, i: int, j: int)
    requires
        laid_out(tables, out),
        0 <= i < out.len(),
        0 <= j < out.len(),
    ensures
        out[i].x == MARGIN + (i / (BOXES_PER_COLUMN as int)) * (BOX_WIDTH + GAP_X),
        i / (BOXES_PER_COLUMN as int) == j / (BOXES_PER_COLUMN as int) ==> out[i].x == out[j].x,
        i / (BOXES_PER_COLUMN as int) < j / (BOXES_PER_COLUMN as int) ==> out[j].x >= out[i].x
            + BOX_WIDTH + GAP_X,
        i < j && i / (BOXES_PER_COLUMN as int) == j / (BOXES_PER_COLUMN as int) ==> out[j].y
            >= out[i].y + GAP_Y,
{
    let p = choose|p: Seq<usize>|
        is_permutation(p, tables.len() as int) && sorted_by_keys(
            p,
            tables.map_values(|t: LayoutInput| layout_key(t)),
            false,
        ) && out.len() == tables.len() && forall|ix: int|
            0 <= ix < out.len() ==> {
                &&& (#[trigger] out[ix]).key@ == tables[p[ix] as int].key@
                &&& out[ix].x as int == placed_x(ix)
                &&& out[ix].y as int == placed_y(
                    p.map_values(|k: usize| box_height_spec(tables[k as int].column_count as int)),
                    ix,
                )
            };
    assert(out[i].x as int == placed_x(i));
    assert(out[j].x as int == placed_x(j));
    let ci = i / 4;
    let cj = j / 4;
    if ci < cj {
        assert(cj * 280 >= ci * 280 + 280) by (nonlinear_arith)
            requires
                ci < cj,
        ;
    }
    if i < j && ci == cj {
        let h = p.map_values(|k: usize| box_height_spec(tables[k as int].column_count as int));
        assert forall|k: int| 0 <= k < h.len() implies #[trigger] h[k] >= 0 by {
            assert(h[k] == box_height_spec(tables[p[k] as int].column_count as int));
        }
        lemma_placed_y_below(h, i, j);
    }
}

} // verus!
