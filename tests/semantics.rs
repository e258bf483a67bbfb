use query_planner::names::index_name;
use query_planner::semantics::exists_by_count;
use query_planner::semantics::mark_value;

#[test]
fn in_with_null_in_inner_set() {
    // t1.a => {1, 3, 4}; t1.a IN (1, 2, NULL) gives {TRUE, NULL, NULL}.
    let inner = vec![Some(1), Some(2), None];
    let got: Vec<Option<bool>> = [1, 3, 4].iter().map(|v| mark_value(Some(*v), &inner)).collect();
    assert_eq!(got, vec![Some(true), None, None]);
}

#[test]
fn in_without_null_is_false_on_miss() {
    let inner = vec![Some(1), Some(2)];
    assert_eq!(mark_value(Some(3), &inner), Some(false));
    assert_eq!(mark_value(Some(2), &inner), Some(true));
    assert_eq!(mark_value(None, &inner), None);
}

#[test]
fn in_empty_set_is_false() {
    assert_eq!(mark_value(None, &vec![]), Some(false));
    assert_eq!(mark_value(Some(7), &vec![]), Some(false));
}

#[test]
fn exists_agrees_with_bounded_count() {
    for rows in [0usize, 1, 2, 1000] {
        assert_eq!(exists_by_count(rows, false), rows > 0);
        assert_eq!(exists_by_count(rows, true), rows == 0);
    }
}

#[test]
fn generated_names_carry_the_decimal_index() {
    assert_eq!(index_name("scalar_subquery_", 12), "scalar_subquery_12");
    assert_eq!(index_name("", 0), "0");
    assert_eq!(index_name("subquery_", 907), "subquery_907");
    assert_eq!(index_name("", usize::MAX), usize::MAX.to_string());
}
