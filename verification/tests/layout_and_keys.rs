use sid::db_diagram::{box_height, compute_initial_layout, LayoutInput, Placement, BOXES_PER_COLUMN, MARGIN};
use sid::keys::{is_field_submit, Keystroke, Modifiers};

fn input(key: &str, degree: usize, column_count: usize) -> LayoutInput {
    LayoutInput { key: key.to_string(), degree, column_count }
}

fn at<'a>(positions: &'a [Placement], key: &str) -> &'a Placement {
    positions.iter().find(|p| p.key == key).unwrap()
}

#[test]
fn higher_degree_tables_sort_first_and_land_at_the_top() {
    let inputs = vec![input("low", 0, 3), input("high", 5, 3)];
    let positions = compute_initial_layout(&inputs);
    let high = at(&positions, "high");
    let low = at(&positions, "low");
    assert_eq!((high.x, high.y), (MARGIN as u128, MARGIN));
    assert!(low.y > high.y);
    assert_eq!(low.x, high.x);
}

#[test]
fn equal_degree_ties_break_by_key_ascending() {
    let inputs = vec![input("zebra", 1, 2), input("alpha", 1, 2)];
    let positions = compute_initial_layout(&inputs);
    assert!(at(&positions, "alpha").y < at(&positions, "zebra").y);
}

#[test]
fn wraps_to_a_new_column_after_boxes_per_column() {
    let inputs: Vec<LayoutInput> = (0..=BOXES_PER_COLUMN).map(|i| input(&format!("t{i}"), 0, 1)).collect();
    let positions = compute_initial_layout(&inputs);
    let wrapped = format!("t{BOXES_PER_COLUMN}");
    assert_eq!(at(&positions, &wrapped).y, MARGIN);
    assert!(at(&positions, &wrapped).x > at(&positions, "t0").x);
}

#[test]
fn layout_coordinates_are_exact() {
    let inputs = vec![input("a", 2, 3), input("b", 1, 20), input("c", 0, 0)];
    let positions = compute_initial_layout(&inputs);
    // a: header 26 + 3 rows of 20 = 86; b is capped at 15 rows = 326
    assert_eq!(box_height(3), 86);
    assert_eq!(box_height(20), 326);
    assert_eq!(box_height(0), 46);
    assert_eq!((positions[0].key.as_str(), positions[0].y), ("a", 40));
    assert_eq!((positions[1].key.as_str(), positions[1].y), ("b", 40 + 86 + 40));
    assert_eq!((positions[2].key.as_str(), positions[2].y), ("c", 166 + 326 + 40));
}

fn stroke(key: &str, modifiers: Modifiers) -> Keystroke {
    Keystroke { modifiers, key: key.to_string(), key_char: None }
}

#[test]
fn a_plain_enter_submits() {
    assert!(is_field_submit(&stroke("enter", Modifiers::none())));
}

#[test]
fn any_other_key_does_not() {
    for key in ["escape", "tab", "a", "space", "return"] {
        assert!(!is_field_submit(&stroke(key, Modifiers::none())), "{key} should not submit");
    }
}

#[test]
fn a_modified_enter_belongs_to_someone_else() {
    let modified = [
        ("control", Modifiers::control()),
        ("alt", Modifiers::alt()),
        ("shift", Modifiers::shift()),
        ("platform", Modifiers::command()),
    ];
    for (name, modifiers) in modified {
        assert!(!is_field_submit(&stroke("enter", modifiers)), "{name}-enter should not submit");
    }
}
