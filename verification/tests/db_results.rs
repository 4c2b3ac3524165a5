use sid::db_results::{
    carried_sort, is_bounded, page_view_caveat, plan_lines, plan_result_columns, result_sort,
    same_shape, single_line, visible_order, visible_rows, ColumnPlan, FloatRank, ResultSort,
    ResultsGrid,
    CELL_CHAR_TENTHS, NUMERIC_MAX_TENTHS, NUMERIC_MIN_TENTHS, TEXT_MAX_TENTHS, TEXT_MIN_TENTHS,
};
use sid::model::{ColumnType, DbColumn, QueryPage, Row};
use sid::order::ColumnSort;

fn col(name: &str, ty: ColumnType) -> DbColumn {
    DbColumn { name: name.to_string(), ty }
}

fn row(values: &[&str]) -> Row {
    Row { values: values.iter().map(|v| v.to_string()).collect() }
}

/// Each row's sort-column cell read as a float, ranked among the column's values.
fn float_ranks(rows: &[Row], col_ix: usize) -> Vec<Option<FloatRank>> {
    let parsed: Vec<Option<f64>> = rows
        .iter()
        .map(|r| r.values.get(col_ix).and_then(|v| v.trim().parse::<f64>().ok()))
        .collect();
    let mut distinct: Vec<f64> = parsed.iter().flatten().copied().filter(|x| !x.is_nan()).collect();
    distinct.sort_by(|a, b| a.partial_cmp(b).unwrap());
    distinct.dedup_by(|a, b| a == b);
    parsed
        .iter()
        .map(|p| {
            p.map(|x| {
                if x.is_nan() {
                    FloatRank::NotANumber
                } else {
                    FloatRank::Ordered(distinct.iter().position(|d| *d == x).unwrap() as u64)
                }
            })
        })
        .collect()
}

fn mixed() -> (Vec<DbColumn>, Vec<Row>) {
    (
        vec![
            col("id", ColumnType::Integer),
            col("external_id", ColumnType::Other("uuid".into())),
            col("city", ColumnType::Text),
            col("note", ColumnType::Text),
        ],
        vec![
            row(&[
                "1",
                "3f2504e0-4f89-11d3-9a0c-0305e82c3301",
                "Phoenix",
                "shipped late, customer called twice about the missing pallet",
            ]),
            row(&["2", "9c858901-8a57-4791-81fe-4c455b099bc9", "Austin", "fine"]),
        ],
    )
}

#[test]
fn a_statement_with_no_result_set_plans_no_columns() {
    assert!(plan_result_columns(&vec![], &vec![]).is_empty());
    assert!(plan_result_columns(&vec![], &vec![row(&[])]).is_empty());
}

#[test]
fn a_uuid_column_is_floored_wide_enough_to_show_a_whole_uuid() {
    let (columns, rows) = mixed();
    let plan = plan_result_columns(&columns, &rows);
    let uuid_floor = plan[1].floor();
    assert!(uuid_floor >= 36 * CELL_CHAR_TENTHS, "the floor is {uuid_floor}");
}

#[test]
fn a_long_header_widens_the_narrow_column_under_it() {
    let columns = vec![col("orders_placed_last_quarter", ColumnType::Integer)];
    let rows = vec![row(&["12"])];
    let plan = plan_result_columns(&columns, &rows);
    assert!(plan[0].floor() > NUMERIC_MIN_TENTHS, "got {}", plan[0].floor());
}

#[test]
fn a_bounded_column_is_never_floored_past_its_cap() {
    let columns = vec![col("n", ColumnType::Integer)];
    let rows = vec![row(&["9".repeat(60).as_str()])];
    assert_eq!(plan_result_columns(&columns, &rows)[0], ColumnPlan::Min(NUMERIC_MAX_TENTHS));
}

#[test]
fn an_unbounded_column_is_never_floored_past_its_cap() {
    let columns = vec![col("doc", ColumnType::Text), col("id", ColumnType::Integer)];
    let rows = vec![row(&["x".repeat(4000).as_str(), "1"])];
    assert_eq!(plan_result_columns(&columns, &rows)[0].floor(), TEXT_MAX_TENTHS, "capped at the readable maximum");
}

#[test]
fn an_empty_result_set_with_columns_still_plans_from_its_headers() {
    let columns = vec![col("id", ColumnType::Integer), col("customer_reference", ColumnType::Text)];
    let plan = plan_result_columns(&columns, &vec![]);
    assert_eq!(plan.len(), 2);
    assert!(plan[0].floor() >= NUMERIC_MIN_TENTHS);
    assert!(plan[1].floor() >= TEXT_MIN_TENTHS);
}

#[test]
fn a_driver_specific_type_is_treated_as_unbounded() {
    for ty in [ColumnType::Text, ColumnType::Bytes, ColumnType::Other("jsonb".into())] {
        assert!(!is_bounded(&ty), "{ty:?} should grow");
    }
    for ty in [ColumnType::Integer, ColumnType::Float, ColumnType::Bool, ColumnType::Null] {
        assert!(is_bounded(&ty), "{ty:?} should stay compact");
    }
}

#[test]
fn a_multi_line_value_is_flattened_onto_the_cell_s_one_line() {
    assert_eq!(
        single_line("CREATE TABLE t (\n  id INTEGER,\n  name TEXT\n)"),
        "CREATE TABLE t ( id INTEGER, name TEXT )"
    );
    assert_eq!(single_line("a\r\n\tb"), "a b");
}

#[test]
fn a_single_line_value_survives_flattening_unchanged() {
    assert_eq!(single_line("Phoenix"), "Phoenix");
    assert_eq!(single_line("R. Runner"), "R. Runner");
    assert_eq!(single_line(""), "");
    assert_eq!(single_line("   "), "", "whitespace-only collapses to empty");
    assert_eq!(single_line("  padded  "), "padded", "ends are trimmed");
}

#[test]
fn a_column_shorter_than_the_rest_of_the_row_does_not_panic() {
    let columns = vec![col("a", ColumnType::Text), col("b", ColumnType::Text)];
    assert_eq!(plan_result_columns(&columns, &vec![row(&["only-one"])]).len(), 2);
}

#[test]
fn column_plan_values_are_exact() {
    // "id": 2 chars -> 2*68+280 = 416, clamped up to 880
    // "city": "Phoenix" 7 chars -> 756, floored at 1400, weight 7
    let (columns, rows) = mixed();
    let plan = plan_result_columns(&columns, &rows);
    assert_eq!(plan[0], ColumnPlan::Min(880));
    assert_eq!(plan[1], ColumnPlan::Grow { min: 36 * 68 + 280, weight: 36 });
    assert_eq!(plan[2], ColumnPlan::Grow { min: 1400, weight: 7 });
    assert_eq!(plan[3], ColumnPlan::Grow { min: 3200, weight: 60 });
}

fn column_of(rows: &[Row], ix: usize) -> Vec<String> {
    rows.iter().map(|r| r.values.get(ix).cloned().unwrap_or_default()).collect()
}

fn sorted(columns: &[ColumnType], rows: &[Row], col_ix: usize, descending: bool) -> Vec<Row> {
    visible_rows(
        &columns.to_vec(),
        &rows.to_vec(),
        "",
        Some(ResultSort { col_ix, descending }),
        &float_ranks(rows, col_ix),
    )
}

fn filtered(columns: &[ColumnType], rows: &[Row], query: &str, sort: Option<ResultSort>) -> Vec<Row> {
    let ranks = match sort {
        Some(s) => float_ranks(rows, s.col_ix),
        None => Vec::new(),
    };
    visible_rows(&columns.to_vec(), &rows.to_vec(), query, sort, &ranks)
}

#[test]
fn an_integer_column_orders_numerically_not_lexicographically() {
    let columns = vec![ColumnType::Integer];
    let rows = vec![row(&["9"]), row(&["10"]), row(&["-2"])];
    assert_eq!(column_of(&sorted(&columns, &rows, 0, false), 0), vec!["-2", "9", "10"]);
}

#[test]
fn a_float_column_orders_numerically() {
    let columns = vec![ColumnType::Float];
    let rows = vec![row(&["9.5"]), row(&["10.25"]), row(&["-0.5"])];
    assert_eq!(column_of(&sorted(&columns, &rows, 0, false), 0), vec!["-0.5", "9.5", "10.25"]);
}

#[test]
fn a_bignum_past_f64_precision_still_orders_exactly() {
    let columns = vec![ColumnType::Integer];
    let rows = vec![row(&["9007199254740993"]), row(&["9007199254740992"]), row(&["9007199254740994"])];
    assert_eq!(
        column_of(&sorted(&columns, &rows, 0, false), 0),
        vec!["9007199254740992", "9007199254740993", "9007199254740994"]
    );
}

#[test]
fn a_numeric_column_holding_an_unparseable_value_falls_back_to_text() {
    let columns = vec![ColumnType::Integer];
    let rows = vec![row(&["b"]), row(&["a"])];
    assert_eq!(column_of(&sorted(&columns, &rows, 0, false), 0), vec!["a", "b"]);
}

#[test]
fn a_text_column_orders_case_insensitively() {
    let columns = vec![ColumnType::Text];
    let rows = vec![row(&["banana"]), row(&["Apple"]), row(&["cherry"])];
    assert_eq!(column_of(&sorted(&columns, &rows, 0, false), 0), vec!["Apple", "banana", "cherry"]);
}

#[test]
fn text_ordering_is_total_so_a_case_only_difference_still_has_an_answer() {
    let columns = vec![ColumnType::Text];
    let rows = vec![row(&["abc"]), row(&["ABC"])];
    assert_eq!(column_of(&sorted(&columns, &rows, 0, false), 0), vec!["ABC", "abc"]);
    assert_eq!(column_of(&sorted(&columns, &rows, 0, true), 0), vec!["abc", "ABC"]);
}

#[test]
fn a_driver_specific_column_orders_as_text() {
    let columns = vec![ColumnType::Other("uuid".into())];
    let rows = vec![row(&["b"]), row(&["a"])];
    assert_eq!(column_of(&sorted(&columns, &rows, 0, false), 0), vec!["a", "b"]);
}

#[test]
fn a_bool_column_orders_false_before_true_in_every_spelling() {
    for (f, t) in [("false", "true"), ("0", "1"), ("f", "t"), ("no", "yes")] {
        let columns = vec![ColumnType::Bool];
        let rows = vec![row(&[t]), row(&[f])];
        assert_eq!(column_of(&sorted(&columns, &rows, 0, false), 0), vec![f, t], "{f}/{t}");
    }
}

#[test]
fn nulls_sort_last_ascending() {
    let columns = vec![ColumnType::Integer];
    let rows = vec![row(&["2"]), row(&["NULL"]), row(&["1"])];
    assert_eq!(column_of(&sorted(&columns, &rows, 0, false), 0), vec!["1", "2", "NULL"]);
}

#[test]
fn nulls_sort_last_descending_too() {
    let columns = vec![ColumnType::Integer];
    let rows = vec![row(&["2"]), row(&["NULL"]), row(&["1"])];
    assert_eq!(column_of(&sorted(&columns, &rows, 0, true), 0), vec!["2", "1", "NULL"]);
}

#[test]
fn a_row_missing_the_sort_column_sorts_as_null() {
    let columns = vec![ColumnType::Text, ColumnType::Text];
    let rows = vec![row(&["x"]), row(&["y", "b"]), row(&["z", "a"])];
    assert_eq!(column_of(&sorted(&columns, &rows, 1, false), 0), vec!["z", "y", "x"]);
}

#[test]
fn an_empty_string_is_a_value_and_not_a_null() {
    let columns = vec![ColumnType::Text];
    let rows = vec![row(&["NULL"]), row(&["b"]), row(&[""])];
    assert_eq!(column_of(&sorted(&columns, &rows, 0, false), 0), vec!["", "b", "NULL"]);
}

#[test]
fn rows_with_equal_keys_keep_the_order_the_driver_returned() {
    let columns = vec![ColumnType::Text, ColumnType::Integer];
    let rows = vec![row(&["same", "1"]), row(&["same", "2"]), row(&["same", "3"])];
    assert_eq!(column_of(&sorted(&columns, &rows, 0, false), 1), vec!["1", "2", "3"]);
    assert_eq!(column_of(&sorted(&columns, &rows, 0, true), 1), vec!["1", "2", "3"]);
}

#[test]
fn no_sort_hands_back_the_page_exactly_as_the_driver_returned_it() {
    let columns = vec![ColumnType::Integer];
    let rows = vec![row(&["3"]), row(&["1"]), row(&["2"])];
    assert_eq!(column_of(&filtered(&columns, &rows, "", None), 0), vec!["3", "1", "2"]);
}

#[test]
fn a_sort_column_past_the_end_of_the_page_is_ignored() {
    let columns = vec![ColumnType::Integer];
    let rows = vec![row(&["3"]), row(&["1"])];
    assert_eq!(column_of(&sorted(&columns, &rows, 7, false), 0), vec!["3", "1"]);
}

#[test]
fn an_empty_or_blank_query_shows_every_row() {
    let columns = vec![ColumnType::Text];
    let rows = vec![row(&["a"]), row(&["b"])];
    assert_eq!(filtered(&columns, &rows, "", None).len(), 2);
    assert_eq!(filtered(&columns, &rows, "   ", None).len(), 2);
}

#[test]
fn the_filter_is_case_insensitive_and_matches_any_cell() {
    let columns = vec![ColumnType::Text, ColumnType::Text];
    let rows = vec![
        row(&["Phoenix", "on time"]),
        row(&["Austin", "shipped to PHOENIX by mistake"]),
        row(&["Springfield", "on time"]),
    ];
    assert_eq!(filtered(&columns, &rows, "phoenix", None).len(), 2);
    assert_eq!(filtered(&columns, &rows, "  PHOENIX ", None).len(), 2);
}

#[test]
fn a_query_that_matches_nothing_shows_no_rows() {
    let columns = vec![ColumnType::Text];
    let rows = vec![row(&["a"]), row(&["b"])];
    assert!(filtered(&columns, &rows, "zzz", None).is_empty());
}

#[test]
fn filtering_and_sorting_compose() {
    let columns = vec![ColumnType::Text, ColumnType::Integer];
    let rows = vec![row(&["Phoenix", "3"]), row(&["Austin", "1"]), row(&["Phoenix", "2"])];
    let out = filtered(&columns, &rows, "phoenix", Some(ResultSort { col_ix: 1, descending: false }));
    assert_eq!(column_of(&out, 1), vec!["2", "3"]);
}

#[test]
fn a_complete_result_set_carries_no_caveat() {
    assert_eq!(page_view_caveat(true, true, false), None);
    assert_eq!(page_view_caveat(true, false, false), None);
    assert_eq!(page_view_caveat(false, true, false), None);
}

#[test]
fn an_untouched_partial_result_set_carries_no_caveat() {
    assert_eq!(page_view_caveat(false, false, true), None);
}

#[test]
fn a_partial_result_set_names_exactly_what_is_page_local() {
    let sorted_only = page_view_caveat(true, false, true).expect("a caveat");
    assert!(sorted_only.contains("sorted"), "{sorted_only:?}");
    assert!(!sorted_only.contains("filtered"), "{sorted_only:?}");

    let filtered_only = page_view_caveat(false, true, true).expect("a caveat");
    assert!(filtered_only.contains("filtered"), "{filtered_only:?}");
    assert!(!filtered_only.contains("sorted"), "{filtered_only:?}");

    let both = page_view_caveat(true, true, true).expect("a caveat");
    assert!(both.contains("sorted") && both.contains("filtered"), "{both:?}");
}

#[test]
fn every_caveat_says_it_is_about_this_page() {
    for (sorted, filtered) in [(true, false), (false, true), (true, true)] {
        let caveat = page_view_caveat(sorted, filtered, true).expect("a caveat");
        assert!(caveat.contains("page"), "{sorted}/{filtered}: {caveat:?}");
    }
}

fn page(columns: &[&str], rows: &[&[&str]]) -> QueryPage {
    QueryPage {
        columns: columns.iter().map(|c| col(c, ColumnType::Text)).collect(),
        rows: rows.iter().map(|r| row(r)).collect(),
        next_cursor: None,
        duration_ms: 0,
    }
}

#[test]
fn a_single_column_plan_keeps_each_row_verbatim() {
    let plan = page(
        &["QUERY PLAN"],
        &[
            &["Hash Join  (cost=1.09..2.20 rows=3 width=68)"],
            &["  Hash Cond: (o.customer_id = c.id)"],
            &["  ->  Seq Scan on orders o  (cost=0.00..1.03 rows=3 width=40)"],
        ],
    );
    assert_eq!(
        plan_lines(&plan),
        vec![
            "Hash Join  (cost=1.09..2.20 rows=3 width=68)".to_string(),
            "  Hash Cond: (o.customer_id = c.id)".to_string(),
            "  ->  Seq Scan on orders o  (cost=0.00..1.03 rows=3 width=40)".to_string(),
        ]
    );
}

#[test]
fn a_multi_column_plan_joins_its_columns_rather_than_dropping_any() {
    let plan = page(&["id", "parent", "notused", "detail"], &[&["3", "0", "0", "SCAN customers"]]);
    assert_eq!(plan_lines(&plan), vec!["3  0  0  SCAN customers"]);
}

#[test]
fn an_empty_plan_produces_no_lines() {
    assert!(plan_lines(&page(&["QUERY PLAN"], &[])).is_empty());
    assert!(plan_lines(&page(&[], &[])).is_empty());
}

#[test]
fn a_plan_row_with_no_values_is_still_a_line() {
    assert_eq!(plan_lines(&page(&["QUERY PLAN"], &[&[""]])), vec![""]);
}

#[test]
fn a_header_sort_state_maps_to_a_grid_sort() {
    assert_eq!(result_sort(2, ColumnSort::Ascending), Some(ResultSort { col_ix: 2, descending: false }));
    assert_eq!(result_sort(2, ColumnSort::Descending), Some(ResultSort { col_ix: 2, descending: true }));
    assert_eq!(result_sort(2, ColumnSort::Default), None);
}

#[test]
fn a_sort_survives_only_a_page_of_the_same_shape() {
    let names = vec!["id".to_string(), "name".to_string()];
    let same = vec![col("id", ColumnType::Integer), col("name", ColumnType::Text)];
    let other = vec![col("id", ColumnType::Integer), col("email", ColumnType::Text)];
    let s = Some(ResultSort { col_ix: 1, descending: true });
    assert!(same_shape(&names, &same));
    assert!(!same_shape(&names, &other));
    assert_eq!(carried_sort(s, &names, &same), s);
    assert_eq!(carried_sort(s, &names, &other), None);
    assert_eq!(carried_sort(s, &names, &same[..1].to_vec()), None);
}

#[test]
fn the_visible_order_is_a_list_of_page_indices() {
    let columns = vec![ColumnType::Integer];
    let rows = vec![row(&["3"]), row(&["NULL"]), row(&["1"]), row(&["2"])];
    let order = visible_order(&columns, &rows, "", Some(ResultSort { col_ix: 0, descending: true }), &float_ranks(&rows, 0));
    assert_eq!(order, vec![0, 3, 2, 1]);
}

#[test]
fn resorting_a_sorted_view_leaves_every_row_in_place() {
    let types = vec![ColumnType::Text, ColumnType::Integer];
    let rows = vec![
        row(&["b", "2"]),
        row(&["A", "10"]),
        row(&["a", "2"]),
        row(&["NULL", "1"]),
        row(&["c", "9"]),
    ];
    for (col_ix, descending) in [(0, false), (0, true), (1, false), (1, true)] {
        let once = sorted(&types, &rows, col_ix, descending);
        let twice = sorted(&types, &once, col_ix, descending);
        assert_eq!(once, twice);
    }
}

#[test]
fn the_same_page_filter_and_sort_always_show_the_same_view() {
    let types = vec![ColumnType::Text];
    let rows = vec![row(&["abc"]), row(&["ABC"]), row(&["Abc"]), row(&["x"])];
    let sort = Some(ResultSort { col_ix: 0, descending: false });
    let ranks = float_ranks(&rows, 0);
    let first = visible_order(&types, &rows, "ab", sort, &ranks);
    let second = visible_order(&types, &rows, "ab", sort, &ranks);
    assert_eq!(first, second);
    assert_eq!(first, vec![1, 2, 0]);
}

fn page_of(columns: Vec<DbColumn>, rows: Vec<Row>) -> QueryPage {
    QueryPage { columns, rows, next_cursor: None, duration_ms: 3 }
}

fn firsts(rows: &[Row]) -> Vec<&str> {
    rows.iter().map(|r| r.values[0].as_str()).collect()
}

#[test]
fn the_grid_keeps_its_sort_across_a_same_shaped_page_and_drops_it_otherwise() {
    let mut g = ResultsGrid::empty();
    let cols = vec![col("n", ColumnType::Integer)];
    let rows = vec![row(&["3"]), row(&["10"]), row(&["2"])];
    g.set_page(page_of(cols.clone(), rows.clone()), float_ranks(&rows, 0));
    assert_eq!(firsts(&g.rows), vec!["3", "10", "2"]);
    g.perform_sort(0, ColumnSort::Descending, float_ranks(&rows, 0));
    assert_eq!(firsts(&g.rows), vec!["10", "3", "2"]);
    let next = vec![row(&["7"]), row(&["11"])];
    g.set_page(page_of(cols, next.clone()), float_ranks(&next, 0));
    assert_eq!(g.sort, Some(ResultSort { col_ix: 0, descending: true }));
    assert_eq!(firsts(&g.rows), vec!["11", "7"]);
    let other = vec![row(&["b"]), row(&["a"])];
    g.set_page(page_of(vec![col("name", ColumnType::Text)], other.clone()), float_ranks(&other, 0));
    assert_eq!(g.sort, None);
    assert_eq!(firsts(&g.rows), vec!["b", "a"]);
    assert_eq!(g.column_names, vec!["name".to_string()]);
}

#[test]
fn the_grid_filter_narrows_the_count() {
    let mut g = ResultsGrid::empty();
    let rows = vec![row(&["Paris"]), row(&["Oslo"]), row(&["paris"])];
    g.set_page(page_of(vec![col("city", ColumnType::Text)], rows.clone()), float_ranks(&rows, 0));
    g.set_query("PAR");
    assert_eq!(g.counts(), (2, 3));
    assert_eq!(firsts(&g.rows), vec!["Paris", "paris"]);
    g.set_query("");
    assert_eq!(g.counts(), (3, 3));
}
