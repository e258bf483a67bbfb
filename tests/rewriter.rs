use query_planner::metadata::Metadata;
use query_planner::plan::Aggregate;
use query_planner::plan::AggregateMode;
use query_planner::plan::EvalScalar;
use query_planner::plan::Filter;
use query_planner::plan::JoinType;
use query_planner::plan::SExpr;
use query_planner::plan::Scan;
use query_planner::plan::ScalarItem;
use query_planner::rewriter::check_child_expr_in_subquery;
use query_planner::rewriter::SubqueryRewriter;
use query_planner::rewriter::UnnestResult;
use query_planner::scalar::AggregateFunction;
use query_planner::scalar::BoundColumnRef;
use query_planner::scalar::CastExpr;
use query_planner::scalar::ColumnBinding;
use query_planner::scalar::ComparisonExpr;
use query_planner::scalar::ComparisonOp;
use query_planner::scalar::ConstantExpr;
use query_planner::scalar::FunctionCall;
use query_planner::scalar::Literal;
use query_planner::scalar::NotExpr;
use query_planner::scalar::Scalar;
use query_planner::scalar::SubqueryExpr;
use query_planner::scalar::SubqueryType;
use query_planner::scalar::Visibility;
use query_planner::types::DataType;
use query_planner::types::NumberDataType;
use query_planner::ErrorCode;

fn int64() -> DataType {
    DataType::number(NumberDataType::Int64)
}

fn col(index: usize, name: &str) -> Scalar {
    Scalar::BoundColumnRef(BoundColumnRef {
        column: ColumnBinding {
            database_name: None,
            table_name: Some("t".to_string()),
            column_name: name.to_string(),
            index,
            data_type: int64(),
            visibility: Visibility::Visible,
        },
    })
}

fn scan(table_index: usize, columns: Vec<usize>) -> SExpr {
    SExpr::Scan(Scan { table_index, columns })
}

/// A registry holding `n` columns, indices `0..n`.
fn registry(n: usize) -> Metadata {
    let mut md = Metadata::new();
    for i in 0..n {
        md.add_derived_column(format!("c{}", i), int64());
    }
    md
}

/// `SELECT max(b) FROM t2`, with `b` column 1 and the max in column 5.
fn max_b_from_t2() -> SExpr {
    let max = Scalar::AggregateFunction(AggregateFunction {
        display_name: "max(b)".to_string(),
        func_name: "max".to_string(),
        distinct: false,
        params: vec![],
        args: vec![col(1, "b")],
        return_type: int64(),
    });
    SExpr::Aggregate(
        Aggregate {
            group_items: vec![],
            aggregate_functions: vec![ScalarItem { scalar: max, index: 5 }],
            from_distinct: false,
            mode: AggregateMode::Initial,
        },
        Box::new(scan(2, vec![1])),
    )
}

fn subquery(typ: SubqueryType, plan: SExpr, output_column: usize) -> Scalar {
    Scalar::SubqueryExpr(SubqueryExpr {
        typ,
        subquery: Box::new(plan),
        child_expr: None,
        compare_op: None,
        output_column,
        projection_index: None,
        data_type: int64(),
    })
}

fn any_subquery(child: Scalar, op: ComparisonOp, projection_index: Option<usize>) -> Scalar {
    Scalar::SubqueryExpr(SubqueryExpr {
        typ: SubqueryType::Any,
        subquery: Box::new(scan(2, vec![1])),
        child_expr: Some(Box::new(child)),
        compare_op: Some(op),
        output_column: 1,
        projection_index,
        data_type: int64(),
    })
}

fn filter(pred: Scalar, child: SExpr) -> SExpr {
    SExpr::Filter(Filter { predicates: vec![pred], is_having: false }, Box::new(child))
}

fn column_of(s: &Scalar) -> &ColumnBinding {
    match s {
        Scalar::BoundColumnRef(r) => &r.column,
        other => panic!("not a column reference: {:?}", other),
    }
}

#[test]
fn scalar_subquery_becomes_single_join() {
    // SELECT (SELECT max(b) FROM t2) FROM t1
    let plan = SExpr::EvalScalar(
        EvalScalar {
            items: vec![ScalarItem { scalar: subquery(SubqueryType::Scalar, max_b_from_t2(), 5), index: 6 }],
        },
        Box::new(scan(1, vec![0])),
    );
    let mut rw = SubqueryRewriter::new(registry(7));
    let out = rw.rewrite(plan).unwrap();
    match &out {
        SExpr::EvalScalar(p, child) => {
            assert_eq!(p.items.len(), 1);
            assert_eq!(p.items[0].index, 6);
            let c = column_of(&p.items[0].scalar);
            assert_eq!(c.column_name, "scalar_subquery_5");
            assert_eq!(c.index, 5);
            assert!(c.data_type.is_nullable());
            assert_eq!(c.data_type, int64().wrap_nullable());
            match child.as_ref() {
                SExpr::Join(j, l, r) => {
                    assert_eq!(j.join_type, JoinType::Single);
                    assert!(j.left_conditions.is_empty() && j.right_conditions.is_empty());
                    assert!(j.non_equi_conditions.is_empty());
                    assert_eq!(j.marker_index, None);
                    assert!(matches!(l.as_ref(), SExpr::Scan(s) if s.table_index == 1));
                    assert!(matches!(r.as_ref(), SExpr::Aggregate(_, _)));
                }
                other => panic!("expected a join: {:?}", other),
            }
        }
        other => panic!("expected an eval scalar: {:?}", other),
    }
    assert_eq!(rw.metadata.num_columns(), 7);
    assert!(query_planner::plan::plan_is_subquery_free(&out));
}

fn exists_plan(typ: SubqueryType) -> (Metadata, SExpr) {
    (registry(3), filter(subquery(typ, scan(2, vec![1]), 1), scan(1, vec![0])))
}

fn check_exists_rewrite(typ: SubqueryType) {
    let (md, plan) = exists_plan(typ);
    let mut rw = SubqueryRewriter::new(md);
    let out = rw.rewrite(plan).unwrap();
    assert_eq!(rw.metadata.num_columns(), 4);
    let entry = rw.metadata.column(3).unwrap();
    assert_eq!(entry.name, "count(*)");
    assert_eq!(entry.data_type, DataType::number(NumberDataType::UInt64));
    let SExpr::Filter(f, child) = &out else { panic!("expected a filter") };
    assert_eq!(f.predicates.len(), 1);
    assert!(matches!(&f.predicates[0],
        Scalar::ConstantExpr(c) if matches!(c.value, Literal::Boolean(true))));
    let SExpr::Join(j, l, r) = child.as_ref() else { panic!("expected a join") };
    assert_eq!(j.join_type, JoinType::Cross);
    assert!(matches!(l.as_ref(), SExpr::Scan(s) if s.table_index == 1));
    let SExpr::Filter(cf, agg) = r.as_ref() else { panic!("expected the count filter") };
    let cmp = match (&cf.predicates[0], typ) {
        (Scalar::NotExpr(NotExpr { argument, .. }), SubqueryType::NotExists) => argument.as_ref(),
        (c, SubqueryType::Exists) => c,
        (other, _) => panic!("unexpected predicate {:?}", other),
    };
    let Scalar::ComparisonExpr(ComparisonExpr { op, left, right, .. }) = cmp else {
        panic!("expected a comparison")
    };
    assert_eq!(*op, ComparisonOp::Equal);
    assert_eq!(column_of(left).index, 3);
    assert!(matches!(right.as_ref(),
        Scalar::ConstantExpr(c) if matches!(c.value, Literal::UInt64(1))));
    let SExpr::Aggregate(a, lim) = agg.as_ref() else { panic!("expected the count") };
    assert!(a.group_items.is_empty());
    assert_eq!(a.aggregate_functions.len(), 1);
    assert_eq!(a.aggregate_functions[0].index, 3);
    assert!(matches!(&a.aggregate_functions[0].scalar,
        Scalar::AggregateFunction(f) if f.func_name == "count" && f.args.is_empty()));
    let SExpr::Limit(l, inner) = lim.as_ref() else { panic!("expected the limit") };
    assert_eq!(l.limit, Some(1));
    assert_eq!(l.offset, 0);
    assert!(matches!(inner.as_ref(), SExpr::Scan(s) if s.table_index == 2));
}

#[test]
fn exists_becomes_count_check_under_cross_join() {
    check_exists_rewrite(SubqueryType::Exists);
}

#[test]
fn not_exists_negates_the_count_check() {
    check_exists_rewrite(SubqueryType::NotExists);
}

#[test]
fn any_with_equality_becomes_right_mark_join_on_keys() {
    let plan = filter(any_subquery(col(0, "a"), ComparisonOp::Equal, None), scan(1, vec![0]));
    let mut rw = SubqueryRewriter::new(registry(12));
    let out = rw.rewrite(plan).unwrap();
    assert_eq!(rw.metadata.num_columns(), 13);
    let entry = rw.metadata.column(12).unwrap();
    assert_eq!(entry.name, "marker");
    assert_eq!(entry.data_type, DataType::nullable_boolean());
    let SExpr::Filter(f, child) = &out else { panic!("expected a filter") };
    let marker = column_of(&f.predicates[0]);
    assert_eq!(marker.index, 12);
    assert_eq!(marker.column_name, "12");
    assert_eq!(marker.data_type, DataType::nullable_boolean());
    let SExpr::Join(j, _, r) = child.as_ref() else { panic!("expected a join") };
    assert_eq!(j.join_type, JoinType::RightMark);
    assert_eq!(j.marker_index, Some(12));
    assert_eq!(j.left_conditions.len(), 1);
    assert_eq!(column_of(&j.left_conditions[0]).index, 0);
    assert_eq!(j.right_conditions.len(), 1);
    assert_eq!(column_of(&j.right_conditions[0]).column_name, "subquery_1");
    assert!(j.non_equi_conditions.is_empty());
    assert!(matches!(r.as_ref(), SExpr::Scan(s) if s.table_index == 2));
}

#[test]
fn any_with_other_operator_goes_to_non_equi_conditions() {
    let plan = filter(any_subquery(col(0, "a"), ComparisonOp::LT, Some(9)), scan(1, vec![0]));
    let mut rw = SubqueryRewriter::new(registry(10));
    let out = rw.rewrite(plan).unwrap();
    // The marker was assigned in advance: nothing is minted.
    assert_eq!(rw.metadata.num_columns(), 10);
    let SExpr::Filter(f, child) = &out else { panic!("expected a filter") };
    assert_eq!(column_of(&f.predicates[0]).column_name, "9");
    let SExpr::Join(j, _, _) = child.as_ref() else { panic!("expected a join") };
    assert_eq!(j.marker_index, Some(9));
    assert!(j.left_conditions.is_empty() && j.right_conditions.is_empty());
    assert_eq!(j.non_equi_conditions.len(), 1);
    let Scalar::ComparisonExpr(c) = &j.non_equi_conditions[0] else { panic!("expected a comparison") };
    assert_eq!(c.op, ComparisonOp::LT);
    assert_eq!(column_of(&c.left).index, 0);
    assert_eq!(column_of(&c.right).index, 1);
}

#[test]
fn all_subquery_is_an_internal_error() {
    let plan = filter(subquery(SubqueryType::All, scan(2, vec![1]), 1), scan(1, vec![0]));
    let mut rw = SubqueryRewriter::new(registry(2));
    let err = rw.rewrite(plan).unwrap_err();
    assert!(matches!(err, ErrorCode::Internal(_)));
}

#[test]
fn any_without_left_hand_side_is_an_internal_error() {
    let q = Scalar::SubqueryExpr(SubqueryExpr {
        typ: SubqueryType::Any,
        subquery: Box::new(scan(2, vec![1])),
        child_expr: None,
        compare_op: Some(ComparisonOp::Equal),
        output_column: 1,
        projection_index: None,
        data_type: int64(),
    });
    let mut rw = SubqueryRewriter::new(registry(2));
    assert!(rw.rewrite(filter(q, scan(1, vec![0]))).is_err());
    assert_eq!(rw.metadata.num_columns(), 2);
}

#[test]
fn correlated_subquery_is_reported() {
    // The subquery filters t2 on column 0 of t1, which it does not produce.
    let inner = filter(
        Scalar::ComparisonExpr(ComparisonExpr {
            op: ComparisonOp::Equal,
            left: Box::new(col(1, "x")),
            right: Box::new(col(0, "y")),
            return_type: DataType::nullable_boolean(),
        }),
        scan(2, vec![1]),
    );
    let outer = query_planner::property::outer_columns(&inner);
    assert_eq!(outer, vec![0]);
    let plan = filter(subquery(SubqueryType::Exists, inner, 1), scan(1, vec![0]));
    let mut rw = SubqueryRewriter::new(registry(2));
    assert!(rw.rewrite(plan).is_err());
}

#[test]
fn subquery_free_plan_is_returned_unchanged() {
    let plan = filter(
        Scalar::ComparisonExpr(ComparisonExpr {
            op: ComparisonOp::GT,
            left: Box::new(col(0, "a")),
            right: Box::new(Scalar::ConstantExpr(ConstantExpr { value: Literal::Int64(3), data_type: int64() })),
            return_type: DataType::nullable_boolean(),
        }),
        scan(1, vec![0]),
    );
    let before = format!("{:?}", plan);
    let mut rw = SubqueryRewriter::new(registry(1));
    let out = rw.rewrite(plan).unwrap();
    assert_eq!(format!("{:?}", out), before);
    assert_eq!(rw.metadata.num_columns(), 1);
}

#[test]
fn rewriting_twice_changes_nothing_more() {
    let plan = filter(subquery(SubqueryType::Exists, scan(2, vec![1]), 1), scan(1, vec![0]));
    let mut rw = SubqueryRewriter::new(registry(2));
    let once = rw.rewrite(plan).unwrap();
    let text = format!("{:?}", once);
    let n = rw.metadata.num_columns();
    let twice = rw.rewrite(once).unwrap();
    assert_eq!(format!("{:?}", twice), text);
    assert_eq!(rw.metadata.num_columns(), n);
}

#[test]
fn minted_columns_are_fresh() {
    // Two EXISTS predicates mint two count columns past the registered ones.
    let plan = SExpr::Filter(
        Filter {
            predicates: vec![
                subquery(SubqueryType::Exists, scan(2, vec![1]), 1),
                subquery(SubqueryType::NotExists, scan(3, vec![2]), 2),
            ],
            is_having: false,
        },
        Box::new(scan(1, vec![0])),
    );
    let mut rw = SubqueryRewriter::new(registry(3));
    let out = rw.rewrite(plan).unwrap();
    assert_eq!(rw.metadata.num_columns(), 5);
    assert_eq!(rw.metadata.column(3).unwrap().name, "count(*)");
    assert_eq!(rw.metadata.column(4).unwrap().name, "count(*)");
    assert_eq!(rw.metadata.column(0).unwrap().name, "c0");
    // The second predicate sees the plan the first one grew.
    let SExpr::Filter(_, child) = &out else { panic!("expected a filter") };
    let SExpr::Join(_, l, _) = child.as_ref() else { panic!("expected a join") };
    assert!(matches!(l.as_ref(), SExpr::Join(j, _, _) if j.join_type == JoinType::Cross));
}

#[test]
fn nested_subquery_is_rewritten_first() {
    // SELECT (SELECT max(b) FROM t2 WHERE EXISTS (SELECT * FROM t3)) FROM t1
    let inner = filter(subquery(SubqueryType::Exists, scan(3, vec![2]), 2), max_b_from_t2());
    let plan = SExpr::EvalScalar(
        EvalScalar { items: vec![ScalarItem { scalar: subquery(SubqueryType::Scalar, inner, 5), index: 6 }] },
        Box::new(scan(1, vec![0])),
    );
    let mut rw = SubqueryRewriter::new(registry(7));
    let out = rw.rewrite(plan).unwrap();
    assert!(query_planner::plan::plan_is_subquery_free(&out));
    assert_eq!(rw.metadata.num_columns(), 8);
}

#[test]
fn count_correction_wraps_the_column() {
    let rw = SubqueryRewriter::new(registry(1));
    let s = rw.subquery_replacement(
        SubqueryType::Scalar,
        4,
        DataType::number(NumberDataType::UInt64),
        UnnestResult::SingleJoin,
        true,
    );
    let Scalar::CastExpr(CastExpr { argument, from_type, target_type }) = &s else {
        panic!("expected a cast")
    };
    let nu64 = DataType::number(NumberDataType::UInt64).wrap_nullable();
    assert_eq!(*target_type, nu64);
    assert_eq!(*from_type, nu64);
    let Scalar::FunctionCall(FunctionCall { arguments, func_name, return_type }) = argument.as_ref() else {
        panic!("expected if")
    };
    assert_eq!(func_name, "if");
    assert_eq!(*return_type, nu64);
    assert_eq!(arguments.len(), 3);
    let Scalar::FunctionCall(g) = &arguments[0] else { panic!("expected is_not_null") };
    assert_eq!(g.func_name, "is_not_null");
    assert_eq!(column_of(&g.arguments[0]).column_name, "scalar_subquery_4");
    assert_eq!(column_of(&arguments[1]).index, 4);
    assert!(matches!(&arguments[2], Scalar::ConstantExpr(c) if matches!(c.value, Literal::Int64(0))));
}

#[test]
fn not_exists_mark_is_negated() {
    let rw = SubqueryRewriter::new(registry(1));
    let s = rw.subquery_replacement(
        SubqueryType::NotExists,
        4,
        DataType::boolean(),
        UnnestResult::MarkJoin { marker_index: 8 },
        false,
    );
    let Scalar::FunctionCall(f) = &s else { panic!("expected not") };
    assert_eq!(f.func_name, "not");
    assert_eq!(f.return_type, DataType::nullable_boolean());
    assert_eq!(column_of(&f.arguments[0]).column_name, "8");
}

#[test]
fn simple_join_replacement_is_true() {
    let rw = SubqueryRewriter::new(registry(1));
    let s = rw.subquery_replacement(SubqueryType::Exists, 4, DataType::boolean(), UnnestResult::SimpleJoin, false);
    assert!(matches!(&s, Scalar::ConstantExpr(c) if matches!(c.value, Literal::Boolean(true))));
}

#[test]
fn child_expr_classification() {
    let (_, non_equi) = check_child_expr_in_subquery(col(0, "a"), ComparisonOp::Equal).unwrap();
    assert!(!non_equi);
    let (_, non_equi) = check_child_expr_in_subquery(col(0, "a"), ComparisonOp::GTE).unwrap();
    assert!(non_equi);
    let k = Scalar::ConstantExpr(ConstantExpr { value: Literal::Int64(1), data_type: int64() });
    let (_, non_equi) = check_child_expr_in_subquery(k, ComparisonOp::Equal).unwrap();
    assert!(non_equi);
    let cast = Scalar::CastExpr(CastExpr {
        argument: Box::new(col(0, "a")),
        from_type: int64(),
        target_type: DataType::number(NumberDataType::UInt64),
    });
    let (back, non_equi) = check_child_expr_in_subquery(cast, ComparisonOp::Equal).unwrap();
    assert!(!non_equi);
    assert!(matches!(back, Scalar::CastExpr(_)));
    let not = Scalar::NotExpr(NotExpr { argument: Box::new(col(0, "a")), return_type: DataType::boolean() });
    assert!(check_child_expr_in_subquery(not, ComparisonOp::Equal).is_err());
}

fn count_star(index: usize) -> ScalarItem {
    ScalarItem {
        scalar: Scalar::AggregateFunction(AggregateFunction {
            display_name: "count(*)".to_string(),
            func_name: "count".to_string(),
            distinct: false,
            params: vec![],
            args: vec![],
            return_type: DataType::number(NumberDataType::UInt64),
        }),
        index,
    }
}

#[test]
fn correlated_count_reads_zero_when_unmatched() {
    // SELECT (SELECT count(*) FROM t2 WHERE t2.x = t1.y) FROM t1
    // t1.y is column 0, t2.x column 1, the count column 5.
    let inner = SExpr::Aggregate(
        Aggregate {
            group_items: vec![],
            aggregate_functions: vec![count_star(5)],
            from_distinct: false,
            mode: AggregateMode::Initial,
        },
        Box::new(filter(
            Scalar::ComparisonExpr(ComparisonExpr {
                op: ComparisonOp::Equal,
                left: Box::new(col(1, "x")),
                right: Box::new(col(0, "y")),
                return_type: DataType::nullable_boolean(),
            }),
            scan(2, vec![1]),
        )),
    );
    let q = Scalar::SubqueryExpr(SubqueryExpr {
        typ: SubqueryType::Scalar,
        subquery: Box::new(inner),
        child_expr: None,
        compare_op: None,
        output_column: 5,
        projection_index: None,
        data_type: DataType::number(NumberDataType::UInt64),
    });
    let plan = SExpr::EvalScalar(
        EvalScalar { items: vec![ScalarItem { scalar: q, index: 6 }] },
        Box::new(scan(1, vec![0])),
    );
    let mut rw = SubqueryRewriter::new(registry(7));
    let out = rw.rewrite(plan).unwrap();
    assert!(query_planner::plan::plan_is_subquery_free(&out));
    let SExpr::EvalScalar(p, child) = &out else { panic!("expected an eval scalar") };
    // The value is cast(if(is_not_null(c), c, 0)): no match gives 0, not NULL.
    let Scalar::CastExpr(cast) = &p.items[0].scalar else { panic!("expected the count correction") };
    let Scalar::FunctionCall(f) = cast.argument.as_ref() else { panic!("expected if") };
    assert_eq!(f.func_name, "if");
    assert_eq!(column_of(&f.arguments[1]).column_name, "scalar_subquery_5");
    assert!(matches!(&f.arguments[2], Scalar::ConstantExpr(c) if matches!(c.value, Literal::Int64(0))));
    let SExpr::Join(j, l, r) = child.as_ref() else { panic!("expected a join") };
    assert_eq!(j.join_type, JoinType::Single);
    assert!(j.from_correlated_subquery);
    assert_eq!(column_of(&j.left_conditions[0]).index, 0);
    assert_eq!(column_of(&j.right_conditions[0]).index, 1);
    assert!(matches!(l.as_ref(), SExpr::Scan(s) if s.table_index == 1));
    let SExpr::Aggregate(a, below) = r.as_ref() else { panic!("expected the grouped count") };
    assert_eq!(a.group_items.len(), 1);
    assert_eq!(a.group_items[0].index, 1);
    assert_eq!(a.aggregate_functions[0].index, 5);
    // The only predicate became the join key: the filter is gone.
    assert!(matches!(below.as_ref(), SExpr::Scan(s) if s.table_index == 2));
    assert_eq!(rw.metadata.num_columns(), 7);
}

#[test]
fn correlated_max_keeps_other_predicates() {
    // SELECT (SELECT max(b) FROM t2 WHERE t2.x = t1.y AND b > 3) FROM t1
    let gt = Scalar::ComparisonExpr(ComparisonExpr {
        op: ComparisonOp::GT,
        left: Box::new(col(1, "b")),
        right: Box::new(Scalar::ConstantExpr(ConstantExpr { value: Literal::Int64(3), data_type: int64() })),
        return_type: DataType::nullable_boolean(),
    });
    let eq = Scalar::ComparisonExpr(ComparisonExpr {
        op: ComparisonOp::Equal,
        left: Box::new(col(0, "y")),
        right: Box::new(col(2, "x")),
        return_type: DataType::nullable_boolean(),
    });
    let max = Scalar::AggregateFunction(AggregateFunction {
        display_name: "max(b)".to_string(),
        func_name: "max".to_string(),
        distinct: false,
        params: vec![],
        args: vec![col(1, "b")],
        return_type: int64(),
    });
    let inner = SExpr::Aggregate(
        Aggregate {
            group_items: vec![],
            aggregate_functions: vec![ScalarItem { scalar: max, index: 5 }],
            from_distinct: false,
            mode: AggregateMode::Initial,
        },
        Box::new(SExpr::Filter(Filter { predicates: vec![eq, gt], is_having: false }, Box::new(scan(2, vec![1, 2])))),
    );
    let plan = SExpr::EvalScalar(
        EvalScalar { items: vec![ScalarItem { scalar: subquery(SubqueryType::Scalar, inner, 5), index: 6 }] },
        Box::new(scan(1, vec![0])),
    );
    let mut rw = SubqueryRewriter::new(registry(7));
    let out = rw.rewrite(plan).unwrap();
    let SExpr::EvalScalar(p, child) = &out else { panic!("expected an eval scalar") };
    assert_eq!(column_of(&p.items[0].scalar).column_name, "scalar_subquery_5");
    let SExpr::Join(j, _, r) = child.as_ref() else { panic!("expected a join") };
    assert_eq!(column_of(&j.left_conditions[0]).index, 0);
    assert_eq!(column_of(&j.right_conditions[0]).index, 2);
    let SExpr::Aggregate(_, below) = r.as_ref() else { panic!("expected the grouped max") };
    let SExpr::Filter(f, _) = below.as_ref() else { panic!("expected the kept filter") };
    assert_eq!(f.predicates.len(), 1);
    assert!(matches!(&f.predicates[0], Scalar::ComparisonExpr(c) if c.op == ComparisonOp::GT));
}

#[test]
fn aggregate_arguments_are_not_searched() {
    // A subquery inside an aggregate's arguments is left where it stands.
    let agg = Scalar::AggregateFunction(AggregateFunction {
        display_name: "max(..)".to_string(),
        func_name: "max".to_string(),
        distinct: false,
        params: vec![],
        args: vec![subquery(SubqueryType::Scalar, scan(2, vec![1]), 1)],
        return_type: int64(),
    });
    let rw0 = SubqueryRewriter::new(registry(2));
    let mut rw = rw0;
    let (s, e) = rw.try_rewrite_subquery(agg, scan(1, vec![0]), false).unwrap();
    assert!(matches!(&s, Scalar::AggregateFunction(f) if matches!(&f.args[0], Scalar::SubqueryExpr(_))));
    assert!(matches!(e, SExpr::Scan(t) if t.table_index == 1));
    assert_eq!(rw.metadata.num_columns(), 2);
}
