//! Rewriting subqueries into joins.
use vstd::prelude::*;

use std::collections::HashMap;

use crate::error::internal;
use crate::error::ErrorCode;
use crate::metadata::Metadata;
use crate::names::decimal;
use crate::names::index_name;
use crate::plan::Aggregate;
use crate::plan::AggregateMode;
use crate::plan::Filter;
use crate::plan::Join;
use crate::plan::JoinType;
use crate::plan::Limit;
use crate::plan::SExpr;
use crate::plan::ScalarItem;
use crate::scalar::AggregateFunction;
use crate::scalar::BoundColumnRef;
use crate::scalar::CastExpr;
use crate::scalar::ColumnBinding;
use crate::scalar::ComparisonExpr;
use crate::scalar::ComparisonOp;
use crate::scalar::ConstantExpr;
use crate::scalar::FunctionCall;
use crate::scalar::Literal;
use crate::scalar::NotExpr;
use crate::scalar::Scalar;
use crate::scalar::SubqueryExpr;
use crate::scalar::SubqueryType;
use crate::scalar::Visibility;
use crate::types::DataType;
use crate::types::NumberDataType;
use crate::types::TypeKind;
use crate::property::outer_columns;
use crate::plan::plan_rewritable;
use crate::plan::plan_subquery_free;
use crate::plan::scalar_rewritable;
use crate::scalar::scalar_is_subquery_free;
use crate::scalar::scalar_subquery_free;
use crate::property::plan_outputs;
use crate::unnest_spec::decorrelate_ok;
use crate::unnest_spec::is_count_agg;
use crate::unnest_spec::is_decorrelated;
use crate::unnest_spec::is_key;
use crate::unnest_spec::kept_preds;
use crate::unnest_spec::is_correlated;
use crate::unnest_spec::scalar_fails;
use crate::unnest_spec::seq_fails;
use crate::unnest_spec::items_fails;
use crate::unnest_spec::plan_fails;
use crate::unnest_spec::scalar_count;
use crate::unnest_spec::seq_count;
use crate::unnest_spec::items_count;
use crate::unnest_spec::scalar_mints;
use crate::unnest_spec::seq_mints;
use crate::unnest_spec::items_mints;
use crate::unnest_spec::plan_mints;
use crate::unnest_spec::own_mints;
use crate::unnest_spec::peel;
use crate::unnest_spec::prefix;
use crate::unnest_spec::with_plan;
use crate::unnest_spec::unnested_plan;
use crate::unnest_spec::uncorrelated_result;
use crate::unnest_spec::subquery_rel;
use crate::unnest_spec::scalar_rel;
use crate::unnest_spec::seq_rel;
use crate::unnest_spec::items_rel;
use crate::unnest_spec::plan_rel;
use crate::unnest_spec::Registry;
use crate::unnest_spec::key_sides;
use crate::unnest_spec::key_side_of;
use crate::unnest_spec::group_item_of;
use crate::unnest_spec::column_index;
use crate::unnest_spec::lemma_scalar_free_inert;
use crate::unnest_spec::lemma_plan_free_inert;
use crate::unnest_spec::lemma_prefix_of;
use crate::unnest_spec::lemma_peel_add;
use crate::unnest_spec::lemma_seq_fails_prefix;
use crate::unnest_spec::lemma_items_fails_prefix;

verus! {

/// How a subquery was unnested.
#[derive(Clone, Copy, Debug, PartialEq, Eq, Structural)]
pub enum UnnestResult {
    /// The predicate is wholly enforced by the join (semi, anti or cross join).
    SimpleJoin,
    /// A mark join whose marker column holds the predicate's value.
    MarkJoin { marker_index: usize },
    /// A single join that brings in the subquery's one output value.
    SingleJoin,
}

/// What flattening a correlated subquery found out.
#[derive(Clone, Copy, Debug, PartialEq, Eq, Structural)]
pub struct FlattenInfo {
    /// The subquery's value is a `COUNT(*)`, whose empty case must read zero.
    pub from_count_func: bool,
}

/// `UInt64`, the type of `count(*)`.
pub open spec fn spec_u64() -> DataType {
    DataType { kind: TypeKind::Number(NumberDataType::UInt64), nullable: false }
}

/// `Nullable(Boolean)`.
pub open spec fn spec_nullable_bool() -> DataType {
    DataType { kind: TypeKind::Boolean, nullable: true }
}

/// `s` is a visible reference to column `index`, named `name`, of type `ty`,
/// with no table or database name.
pub open spec fn is_column(s: Scalar, index: usize, name: Seq<char>, ty: DataType) -> bool {
    match s {
        Scalar::BoundColumnRef(r) => r.column.index == index && r.column.column_name@ == name
            && r.column.data_type == ty && r.column.database_name is None
            && r.column.table_name is None && r.column.visibility == Visibility::Visible,
        _ => false,
    }
}

/// `s` is the literal `TRUE`.
pub open spec fn is_true_literal(s: Scalar) -> bool {
    match s {
        Scalar::ConstantExpr(c) => c.value == Literal::Boolean(true) && c.data_type == (
        DataType { kind: TypeKind::Boolean, nullable: false }),
        _ => false,
    }
}

/// Whether the left-hand side `s` of a quantified comparison with `op`
/// must go to the non-equi conditions (`Some(true)`), can be an equi-join key
/// (`Some(false)`), or is a shape that cannot stand there (`None`).
pub open spec fn child_expr_class(s: Scalar, op: ComparisonOp) -> Option<bool>
    decreases s,
{
    match s {
        Scalar::BoundColumnRef(_) => Some(op != ComparisonOp::Equal),
        Scalar::ConstantExpr(_) => Some(true),
        Scalar::CastExpr(c) => child_expr_class(*c.argument, op),
        _ => None,
    }
}

/// A left-hand side that can stand in a join condition holds no subquery.
pub proof fn lemma_child_expr_subquery_free(s: Scalar, op: ComparisonOp)
    requires
        child_expr_class(s, op) is Some,
    ensures
        crate::scalar::scalar_subquery_free(s),
    decreases s,
{
    if let Scalar::CastExpr(c) = s {
        lemma_child_expr_subquery_free(*c.argument, op);
    }
}

fn classify_child_expr(s: &Scalar, op: ComparisonOp) -> (r: Option<bool>)
    ensures
        r == child_expr_class(*s, op),
    decreases s,
{
    match s {
        Scalar::BoundColumnRef(_) => Some(op != ComparisonOp::Equal),
        Scalar::ConstantExpr(_) => Some(true),
        Scalar::CastExpr(c) => classify_child_expr(&c.argument, op),
        _ => None,
    }
}

/// Classifies the left-hand side of a quantified comparison: column
/// references are join keys under `=` and residual predicates otherwise,
/// constants are always residual, casts follow their argument; any other
/// shape is an internal error. The expression is handed back unchanged.
pub fn check_child_expr_in_subquery(child_expr: Scalar, op: ComparisonOp) -> (r: Result<
    (Scalar, bool),
    ErrorCode,
>)
    ensures
        match r {
            Ok((s, non_equi)) => s == child_expr && child_expr_class(child_expr, op) == Some(
                non_equi,
            ),
            Err(_) => child_expr_class(child_expr, op) is None,
        },
{
    match classify_child_expr(&child_expr, op) {
        Some(non_equi) => Ok((child_expr, non_equi)),
        None => Err(internal("Invalid child expr in subquery")),
    }
}

/// A visible column reference with no table or database name.
fn column_ref(index: usize, name: String, data_type: DataType) -> (r: Scalar)
    ensures
        is_column(r, index, name@, data_type),
{
    Scalar::BoundColumnRef(
        BoundColumnRef {
            column: ColumnBinding {
                database_name: None,
                table_name: None,
                column_name: name,
                index,
                data_type,
                visibility: Visibility::Visible,
            },
        },
    )
}

/// The literal `TRUE`.
pub fn true_literal() -> (r: Scalar)
    ensures
        is_true_literal(r),
{
    Scalar::ConstantExpr(ConstantExpr { value: Literal::Boolean(true), data_type: DataType::boolean() })
}

/// `s` is `cast(if(is_not_null(col), col, 0) as Nullable(UInt64))`, where
/// `col` is the reference that `is_column(_, index, name, ty)` describes.
pub open spec fn is_count_corrected(s: Scalar, index: usize, name: Seq<char>, ty: DataType) -> bool {
    let nu64 = DataType { kind: TypeKind::Number(NumberDataType::UInt64), nullable: true };
    match s {
        Scalar::CastExpr(c) => c.from_type == ty && c.target_type == nu64 && match *c.argument {
            Scalar::FunctionCall(f) => f.func_name@ == "if"@ && f.return_type == nu64
                && f.arguments@.len() == 3 && is_column(f.arguments@[1], index, name, ty) && (
            match f.arguments@[0] {
                Scalar::FunctionCall(g) => g.func_name@ == "is_not_null"@ && g.return_type == (
                DataType { kind: TypeKind::Boolean, nullable: false }) && g.arguments@.len()
                    == 1 && is_column(g.arguments@[0], index, name, ty),
                _ => false,
            }) && (match f.arguments@[2] {
                Scalar::ConstantExpr(z) => z.value == Literal::Int64(0) && z.data_type == (
                DataType { kind: TypeKind::Number(NumberDataType::Int64), nullable: true }),
                _ => false,
            }),
            _ => false,
        },
        _ => false,
    }
}

/// `s` is `not(col)` of type `Nullable(Boolean)`.
pub open spec fn is_negated_column(s: Scalar, index: usize, name: Seq<char>, ty: DataType) -> bool {
    match s {
        Scalar::FunctionCall(f) => f.func_name@ == "not"@ && f.return_type == spec_nullable_bool()
            && f.arguments@.len() == 1 && is_column(f.arguments@[0], index, name, ty),
        _ => false,
    }
}

/// The column a subquery's value is read from after unnesting, its name and its type.
pub open spec fn unnested_column(
    typ: SubqueryType,
    output_column: usize,
    data_type: DataType,
    result: UnnestResult,
    derived: Map<usize, usize>,
) -> (usize, Seq<char>, DataType) {
    let ty = if typ == SubqueryType::Scalar {
        data_type.spec_wrap_nullable()
    } else if result is MarkJoin {
        spec_nullable_bool()
    } else {
        data_type
    };
    match result {
        UnnestResult::MarkJoin { marker_index } => (marker_index, decimal(marker_index as nat), ty),
        _ => {
            let idx = if derived.contains_key(output_column) {
                derived[output_column]
            } else {
                output_column
            };
            (idx, "scalar_subquery_"@ + decimal(idx as nat), ty)
        },
    }
}

/// What replaces a subquery once it has been unnested as `result`.
pub open spec fn is_subquery_replacement(
    s: Scalar,
    typ: SubqueryType,
    output_column: usize,
    data_type: DataType,
    result: UnnestResult,
    from_count_func: bool,
    derived: Map<usize, usize>,
) -> bool {
    let (idx, name, ty) = unnested_column(typ, output_column, data_type, result, derived);
    if result is SimpleJoin {
        is_true_literal(s)
    } else if from_count_func {
        is_count_corrected(s, idx, name, ty)
    } else if typ == SubqueryType::NotExists {
        is_negated_column(s, idx, name, ty)
    } else {
        is_column(s, idx, name, ty)
    }
}

/// Rewrites subqueries of a plan into joins.
pub struct SubqueryRewriter {
    /// The registry in which derived columns are minted.
    pub metadata: Metadata,
    /// Replacement indices of columns renamed by decorrelation.
    pub derived_columns: HashMap<usize, usize>,
}

/// `s` is the aggregate `count(*)`.
pub open spec fn is_count_star(s: Scalar) -> bool {
    match s {
        Scalar::AggregateFunction(f) => f.display_name@ == "count(*)"@ && f.func_name@
            == "count"@ && !f.distinct && f.params@.len() == 0 && f.args@.len() == 0
            && f.return_type == spec_u64(),
        _ => false,
    }
}

/// `s` is `count(*) = 1` over the column `index`.
pub open spec fn is_count_eq_one(s: Scalar, index: usize) -> bool {
    match s {
        Scalar::ComparisonExpr(c) => c.op == ComparisonOp::Equal && is_column(
            *c.left,
            index,
            "count(*)"@,
            spec_u64(),
        ) && c.return_type == spec_nullable_bool() && match *c.right {
            Scalar::ConstantExpr(k) => k.value == Literal::UInt64(1) && k.data_type == (DataType {
                kind: TypeKind::Number(NumberDataType::UInt64),
                nullable: true,
            }),
            _ => false,
        },
        _ => false,
    }
}

/// `s` is `count(*) = 1`, or its negation when `negated`.
pub open spec fn is_count_check(s: Scalar, index: usize, negated: bool) -> bool {
    if negated {
        match s {
            Scalar::NotExpr(n) => n.return_type == spec_nullable_bool() && is_count_eq_one(
                *n.argument,
                index,
            ),
            _ => false,
        }
    } else {
        is_count_eq_one(s, index)
    }
}

/// `e` is `Filter(count(*) = 1) <- Aggregate(count(*)) <- Limit(1) <- sub`, the
/// count going to column `index`; with `negated`, the filter is `NOT (count(*) = 1)`.
pub open spec fn is_exists_subplan(e: SExpr, sub: SExpr, index: usize, negated: bool) -> bool {
    match e {
        SExpr::Filter(f, a_plan) => !f.is_having && f.predicates@.len() == 1 && is_count_check(
            f.predicates@[0],
            index,
            negated,
        ) && match *a_plan {
            SExpr::Aggregate(a, l_plan) => a.group_items@.len() == 0
                && a.aggregate_functions@.len() == 1 && a.aggregate_functions@[0].index == index
                && is_count_star(a.aggregate_functions@[0].scalar) && !a.from_distinct && a.mode
                == AggregateMode::Initial && match *l_plan {
                SExpr::Limit(lim, s_plan) => lim == (Limit { limit: Some(1), offset: 0 })
                    && *s_plan == sub,
                _ => false,
            },
            _ => false,
        },
        _ => false,
    }
}

/// `e` is a join of `join_type` between `left` and `right`, with no conditions
/// and no marker, not from a correlated subquery.
pub open spec fn is_plain_join(e: SExpr, join_type: JoinType, left: SExpr, right: SExpr) -> bool {
    match e {
        SExpr::Join(j, l, r) => j.join_type == join_type && j.left_conditions@.len() == 0
            && j.right_conditions@.len() == 0 && j.non_equi_conditions@.len() == 0
            && j.marker_index is None && !j.from_correlated_subquery && *l == left && *r == right,
        _ => false,
    }
}

/// Unnesting the uncorrelated subquery `q` fails: an `ALL` subquery, an
/// `ANY` one without a usable left-hand side and operator.
pub open spec fn uncorrelated_fails(q: SubqueryExpr) -> bool {
    match q.typ {
        SubqueryType::All => true,
        SubqueryType::Scalar => false,
        SubqueryType::Exists | SubqueryType::NotExists => false,
        SubqueryType::Any => q.child_expr is None || q.compare_op is None || child_expr_class(
            *q.child_expr->Some_0,
            q.compare_op->Some_0,
        ) is None,
    }
}

/// The conditions of the mark join built for `ANY` subquery `q`.
pub open spec fn is_mark_join_conditions(j: Join, q: SubqueryExpr) -> bool {
    let ce = *q.child_expr->Some_0;
    let op = q.compare_op->Some_0;
    let col_name = "subquery_"@ + decimal(q.output_column as nat);
    if child_expr_class(ce, op) == Some(false) {
        j.left_conditions@ == seq![ce] && j.right_conditions@.len() == 1 && is_column(
            j.right_conditions@[0],
            q.output_column,
            col_name,
            q.data_type,
        ) && j.non_equi_conditions@.len() == 0
    } else {
        j.left_conditions@.len() == 0 && j.right_conditions@.len() == 0
            && j.non_equi_conditions@.len() == 1 && match j.non_equi_conditions@[0] {
            Scalar::ComparisonExpr(c) => c.op == op && *c.left == ce && is_column(
                *c.right,
                q.output_column,
                col_name,
                q.data_type,
            ) && c.return_type == spec_nullable_bool(),
            _ => false,
        }
    }
}

/// `e` and `res` are what unnesting uncorrelated `q` against `left` gives,
/// the registry going from `md0` to `md1`.
pub open spec fn is_uncorrelated_rewrite(
    e: SExpr,
    res: UnnestResult,
    left: SExpr,
    q: SubqueryExpr,
    md0: Seq<(Seq<char>, DataType)>,
    md1: Seq<(Seq<char>, DataType)>,
) -> bool {
    match q.typ {
        SubqueryType::Scalar => res == UnnestResult::SingleJoin && md1 == md0 && is_plain_join(
            e,
            JoinType::Single,
            left,
            *q.subquery,
        ),
        SubqueryType::Exists | SubqueryType::NotExists => {
            let idx = md0.len() as usize;
            res == UnnestResult::SimpleJoin && md1 == md0.push(("count(*)"@, spec_u64())) && (
            match e {
                SExpr::Join(j, l, r) => j.join_type == JoinType::Cross && j.left_conditions@.len()
                    == 0 && j.right_conditions@.len() == 0 && j.non_equi_conditions@.len() == 0
                    && j.marker_index is None && !j.from_correlated_subquery && *l == left
                    && is_exists_subplan(
                    *r,
                    *q.subquery,
                    idx,
                    q.typ == SubqueryType::NotExists,
                ),
                _ => false,
            })
        },
        SubqueryType::Any => {
            let m = match q.projection_index {
                Some(p) => p,
                None => md0.len() as usize,
            };
            q.child_expr is Some && q.compare_op is Some && child_expr_class(
                *q.child_expr->Some_0,
                q.compare_op->Some_0,
            ) is Some && res == UnnestResult::MarkJoin { marker_index: m } && md1 == (if q.projection_index is None {
                md0.push(("marker"@, spec_nullable_bool()))
            } else {
                md0
            }) && match e {
                SExpr::Join(j, l, r) => j.join_type == JoinType::RightMark && j.marker_index
                    == Some(m) && !j.from_correlated_subquery && *l == left && *r == *q.subquery
                    && is_mark_join_conditions(j, q),
                _ => false,
            }
        },
        SubqueryType::All => false,
    }
}

/// The type `count(*)` returns.
pub fn count_return_type() -> (r: DataType)
    ensures
        r == spec_u64(),
{
    DataType::number(NumberDataType::UInt64)
}

fn no_conditions() -> (r: Vec<Scalar>)
    ensures
        r@.len() == 0,
{
    Vec::new()
}

/// `after` is `before` with zero or more entries appended.
pub open spec fn registry_extends(
    before: Seq<(Seq<char>, DataType)>,
    after: Seq<(Seq<char>, DataType)>,
) -> bool {
    before.len() <= after.len() && forall|i: int| 0 <= i < before.len() ==> #[trigger] after[i] == before[i]
}

pub proof fn lemma_extends_trans(
    a: Seq<(Seq<char>, DataType)>,
    b: Seq<(Seq<char>, DataType)>,
    c: Seq<(Seq<char>, DataType)>,
)
    requires
        registry_extends(a, b),
        registry_extends(b, c),
    ensures
        registry_extends(a, c),
{
}

proof fn lemma_extends_refl(a: Seq<(Seq<char>, DataType)>)
    ensures
        registry_extends(a, a),
{
}

proof fn lemma_uncorrelated_extends(
    q: SubqueryExpr,
    md0: Seq<(Seq<char>, DataType)>,
    md1: Seq<(Seq<char>, DataType)>,
)
    requires
        exists|e: SExpr, res: UnnestResult, left: SExpr|
            is_uncorrelated_rewrite(e, res, left, q, md0, md1),
    ensures
        registry_extends(md0, md1),
{
}

/// Unnesting a subquery without subqueries, against a plan without
/// subqueries, gives a plan without subqueries.
proof fn lemma_uncorrelated_free(
    e: SExpr,
    res: UnnestResult,
    left: SExpr,
    q: SubqueryExpr,
    md0: Seq<(Seq<char>, DataType)>,
    md1: Seq<(Seq<char>, DataType)>,
)
    requires
        is_uncorrelated_rewrite(e, res, left, q, md0, md1),
        plan_subquery_free(left),
        plan_subquery_free(*q.subquery),
    ensures
        plan_subquery_free(e),
{
    if let SExpr::Join(j, l, r) = e {
        match q.typ {
            SubqueryType::Exists | SubqueryType::NotExists => {
                if let SExpr::Filter(f, a_plan) = *r {
                    if let SExpr::Aggregate(a, l_plan) = *a_plan {
                        if let SExpr::Limit(_, _) = *l_plan {
                            assert(plan_subquery_free(*l_plan));
                        }
                        let agg = a.aggregate_functions@[0].scalar;
                        if let Scalar::AggregateFunction(cf) = agg {
                            crate::scalar::lemma_all_subquery_free(cf.args@);
                        }
                        assert(scalar_subquery_free(agg));
                        assert(crate::plan::item_scalars(a.aggregate_functions@)[0] == agg);
                        let its = crate::plan::item_scalars(a.aggregate_functions@);
                        assert forall|i: int| 0 <= i < its.len() implies #[trigger]
                            scalar_subquery_free(its[i]) by {
                            assert(i == 0);
                        }
                        assert(plan_subquery_free(*a_plan));
                    }
                    let p = f.predicates@[0];
                    if let Scalar::NotExpr(n) = p {
                        if let Scalar::ComparisonExpr(c) = *n.argument {
                            assert(scalar_subquery_free(*c.left));
                            assert(scalar_subquery_free(*c.right));
                        }
                        assert(scalar_subquery_free(*n.argument));
                    }
                    if let Scalar::ComparisonExpr(c) = p {
                        assert(scalar_subquery_free(*c.left));
                        assert(scalar_subquery_free(*c.right));
                    }
                    assert(scalar_subquery_free(p));
                    assert forall|i: int| 0 <= i < f.predicates@.len() implies #[trigger]
                        scalar_subquery_free(f.predicates@[i]) by {
                        assert(i == 0);
                    }
                }
            },
            SubqueryType::Any => {
                let ce = *q.child_expr->Some_0;
                lemma_child_expr_subquery_free(ce, q.compare_op->Some_0);
                if j.left_conditions@.len() == 1 {
                    assert(j.left_conditions@[0] == ce);
                    assert(scalar_subquery_free(j.right_conditions@[0]));
                } else {
                    if let Scalar::ComparisonExpr(c) = j.non_equi_conditions@[0] {
                        assert(scalar_subquery_free(*c.left));
                        assert(scalar_subquery_free(*c.right));
                    }
                    assert(scalar_subquery_free(j.non_equi_conditions@[0]));
                }
            },
            _ => {},
        }
        assert forall|i: int| 0 <= i < j.left_conditions@.len() implies #[trigger]
            scalar_subquery_free(j.left_conditions@[i]) by {
            assert(i == 0);
        }
        assert forall|i: int| 0 <= i < j.right_conditions@.len() implies #[trigger]
            scalar_subquery_free(j.right_conditions@[i]) by {
            assert(i == 0);
        }
        assert forall|i: int| 0 <= i < j.non_equi_conditions@.len() implies #[trigger]
            scalar_subquery_free(j.non_equi_conditions@[i]) by {
            assert(i == 0);
        }
        assert(crate::plan::join_subquery_free(j));
        assert(plan_subquery_free(*r));
    }
}

/// `e` is a single join, from a correlated subquery, with `left` on its left,
/// its conditions equi-join keys of equal number and no marker.
pub open spec fn is_correlated_single_join(e: SExpr, left: SExpr) -> bool {
    match e {
        SExpr::Join(j, l, _) => j.join_type == JoinType::Single && j.from_correlated_subquery
            && j.marker_index is None && j.left_conditions@.len() == j.right_conditions@.len()
            && j.left_conditions@.len() > 0 && j.non_equi_conditions@.len() == 0 && *l == left,
        _ => false,
    }
}

/// Column references hold no subquery.
proof fn lemma_column_refs_free(v: Seq<Scalar>)
    requires
        forall|i: int| 0 <= i < v.len() ==> (#[trigger] v[i]) is BoundColumnRef,
    ensures
        crate::scalar::scalars_subquery_free(v),
{
    assert forall|i: int| 0 <= i < v.len() implies #[trigger] scalar_subquery_free(v[i]) by {
        assert(v[i] is BoundColumnRef);
    }
}

/// A copy of a column binding.
fn copy_binding(b: &ColumnBinding) -> (r: ColumnBinding)
    ensures
        r == *b,
{
    let database_name = match &b.database_name {
        Some(n) => Some(n.clone()),
        None => None,
    };
    let table_name = match &b.table_name {
        Some(n) => Some(n.clone()),
        None => None,
    };
    ColumnBinding {
        database_name,
        table_name,
        column_name: b.column_name.clone(),
        index: b.index,
        data_type: b.data_type,
        visibility: b.visibility,
    }
}

/// Whether `p` is a correlation key over `x`, whose columns `produced`
/// holds, and then whether its left side is the inner one.
fn key_side(p: &Scalar, produced: &Vec<usize>, x: &SExpr) -> (r: Option<bool>)
    requires
        forall|c: usize| #[trigger] produced@.contains(c) <==> plan_outputs(*x, c),
    ensures
        r is Some <==> is_key(*p, *x),
        r matches Some(left_inner) ==> match *p {
            Scalar::ComparisonExpr(c) => match (*c.left, *c.right) {
                (Scalar::BoundColumnRef(a), Scalar::BoundColumnRef(b)) => plan_outputs(
                    *x,
                    a.column.index,
                ) == left_inner && plan_outputs(*x, b.column.index) == !left_inner,
                _ => false,
            },
            _ => false,
        },
{
    match p {
        Scalar::ComparisonExpr(c) => {
            if c.op != ComparisonOp::Equal {
                return None;
            }
            match (&*c.left, &*c.right) {
                (Scalar::BoundColumnRef(a), Scalar::BoundColumnRef(b)) => {
                    let a_in = crate::property::contains_index(produced, a.column.index);
                    let b_in = crate::property::contains_index(produced, b.column.index);
                    if a_in != b_in {
                        Some(a_in)
                    } else {
                        None
                    }
                },
                _ => None,
            }
        },
        _ => None,
    }
}

/// Splits `preds` into the kept predicates and the correlation keys over
/// `x`, returned as outer and inner sides, pair by pair.
fn split_correlated(preds: Vec<Scalar>, produced: &Vec<usize>, x: &SExpr) -> (r: (
    Vec<Scalar>,
    Vec<Scalar>,
    Vec<Scalar>,
))
    requires
        forall|c: usize| #[trigger] produced@.contains(c) <==> plan_outputs(*x, c),
    ensures
        r.0@ == kept_preds(preds@, *x),
        r.1@ == key_sides(preds@, *x, false),
        r.2@ == key_sides(preds@, *x, true),
        forall|i: int| 0 <= i < r.1@.len() ==> match #[trigger] r.1@[i] {
            Scalar::BoundColumnRef(b) => !plan_outputs(*x, b.column.index),
            _ => false,
        },
        forall|i: int| 0 <= i < r.2@.len() ==> match #[trigger] r.2@[i] {
            Scalar::BoundColumnRef(b) => plan_outputs(*x, b.column.index),
            _ => false,
        },
{
    let ghost orig = preds@;
    let n = preds.len();
    let mut rest = preds;
    let mut kept: Vec<Scalar> = Vec::new();
    let mut outer_keys: Vec<Scalar> = Vec::new();
    let mut inner_keys: Vec<Scalar> = Vec::new();
    let mut k: usize = 0;
    while k < n
        invariant
            n == orig.len(),
            0 <= k <= n,
            forall|c: usize| #[trigger] produced@.contains(c) <==> plan_outputs(*x, c),
            rest@ == orig.subrange(k as int, n as int),
            kept@ == kept_preds(orig.subrange(0, k as int), *x),
            outer_keys@ == key_sides(orig.subrange(0, k as int), *x, false),
            inner_keys@ == key_sides(orig.subrange(0, k as int), *x, true),
            forall|i: int| 0 <= i < outer_keys@.len() ==> match #[trigger] outer_keys@[i] {
                Scalar::BoundColumnRef(b) => !plan_outputs(*x, b.column.index),
                _ => false,
            },
            forall|i: int| 0 <= i < inner_keys@.len() ==> match #[trigger] inner_keys@[i] {
                Scalar::BoundColumnRef(b) => plan_outputs(*x, b.column.index),
                _ => false,
            },
        decreases n - k,
    {
        let p = rest.remove(0);
        assert(p == orig[k as int]);
        assert(orig.subrange(0, k + 1).drop_last() =~= orig.subrange(0, k as int));
        assert(orig.subrange(0, k + 1).last() == p);
        let side = key_side(&p, produced, x);
        match side {
            Some(left_inner) => {
                let ghost pk = p;
                if let Scalar::ComparisonExpr(c) = p {
                    let ComparisonExpr { op: _, left, right, return_type: _ } = c;
                    assert(key_side_of(pk, *x, true) == if left_inner { *left } else { *right });
                    assert(key_side_of(pk, *x, false) == if left_inner { *right } else { *left });
                    if left_inner {
                        inner_keys.push(*left);
                        outer_keys.push(*right);
                    } else {
                        inner_keys.push(*right);
                        outer_keys.push(*left);
                    }
                }
            },
            None => {
                kept.push(p);
            },
        }
        assert(rest@ =~= orig.subrange(k + 1, n as int));
        k += 1;
    }
    assert(orig.subrange(0, n as int) =~= orig);
    (kept, outer_keys, inner_keys)
}

/// The kept predicates are some of the predicates.
proof fn lemma_kept_free(preds: Seq<Scalar>, x: SExpr)
    ensures
        crate::scalar::scalars_subquery_free(preds) ==> crate::scalar::scalars_subquery_free(
            kept_preds(preds, x),
        ),
    decreases preds.len(),
{
    if preds.len() > 0 {
        lemma_kept_free(preds.drop_last(), x);
        if crate::scalar::scalars_subquery_free(preds) {
            assert(forall|i: int| 0 <= i < preds.len() - 1 ==> preds.drop_last()[i] == preds[i]);
            assert(scalar_subquery_free(preds[preds.len() - 1]));
        }
    }
}

/// What replaces an unnested subquery holds no subquery.
proof fn lemma_replacement_free(
    s: Scalar,
    typ: SubqueryType,
    output_column: usize,
    data_type: DataType,
    result: UnnestResult,
    from_count_func: bool,
    derived: Map<usize, usize>,
)
    requires
        is_subquery_replacement(s, typ, output_column, data_type, result, from_count_func, derived),
    ensures
        scalar_subquery_free(s),
{
    let (idx, name, ty) = unnested_column(typ, output_column, data_type, result, derived);
    if result is SimpleJoin {
        assert(is_true_literal(s));
    } else if from_count_func {
        assert(is_count_corrected(s, idx, name, ty));
        if let Scalar::CastExpr(c) = s {
            if let Scalar::FunctionCall(f) = *c.argument {
                if let Scalar::FunctionCall(g) = f.arguments@[0] {
                    assert(scalar_subquery_free(g.arguments@[0]));
                    assert forall|i: int| 0 <= i < g.arguments@.len() implies #[trigger]
                        scalar_subquery_free(g.arguments@[i]) by {
                        assert(i == 0);
                    }
                    crate::scalar::lemma_all_subquery_free(g.arguments@);
                    assert(scalar_subquery_free(f.arguments@[0]));
                }
                assert(scalar_subquery_free(f.arguments@[1]));
                assert(scalar_subquery_free(f.arguments@[2]));
                assert forall|i: int| 0 <= i < f.arguments@.len() implies #[trigger]
                    scalar_subquery_free(f.arguments@[i]) by {
                    assert(i == 0 || i == 1 || i == 2);
                }
                crate::scalar::lemma_all_subquery_free(f.arguments@);
                assert(scalar_subquery_free(*c.argument));
            }
        }
    } else if typ == SubqueryType::NotExists {
        if let Scalar::FunctionCall(f) = s {
            assert(scalar_subquery_free(f.arguments@[0]));
            assert forall|i: int| 0 <= i < f.arguments@.len() implies #[trigger]
                scalar_subquery_free(f.arguments@[i]) by {
                assert(i == 0);
            }
            crate::scalar::lemma_all_subquery_free(f.arguments@);
        }
    }
    else {
        assert(is_column(s, idx, name, ty));
    }
}

impl SubqueryRewriter {
    pub fn new(metadata: Metadata) -> (r: Self)
        ensures
            r.metadata == metadata,
            r.derived_columns@ == Map::<usize, usize>::empty(),
    {
        SubqueryRewriter { metadata, derived_columns: HashMap::new() }
    }

    /// The column that `c` was renamed to by decorrelation, or `c` itself.
    fn resolve_derived(&self, c: usize) -> (r: usize)
        ensures
            r == (if self.derived_columns@.contains_key(c) {
                self.derived_columns@[c]
            } else {
                c
            }),
    {
        broadcast use vstd::std_specs::hash::group_hash_axioms;

        match self.derived_columns.get(&c) {
            Some(i) => *i,
            None => c,
        }
    }

    /// The scalar that stands for a subquery of kind `typ`, output column
    /// `output_column` and type `data_type` once it has been unnested as
    /// `result`: `TRUE` for a simple join; else a reference to the marker or
    /// to the output column, negated for `NOT EXISTS`, and turned into
    /// `if(is_not_null(c), c, 0)` when the value came from `COUNT(*)`.
    pub fn subquery_replacement(
        &self,
        typ: SubqueryType,
        output_column: usize,
        data_type: DataType,
        result: UnnestResult,
        from_count_func: bool,
    ) -> (r: Scalar)
        ensures
            is_subquery_replacement(
                r,
                typ,
                output_column,
                data_type,
                result,
                from_count_func,
                self.derived_columns@,
            ),
    {
        if let UnnestResult::SimpleJoin = result {
            return true_literal();
        }
        proof {
            reveal_strlit("");
        }
        let (index, name) = match result {
            UnnestResult::MarkJoin { marker_index } => {
                let n = index_name("", marker_index);
                assert(n@ =~= decimal(marker_index as nat));
                (marker_index, n)
            },
            _ => {
                let oc = self.resolve_derived(output_column);
                (oc, index_name("scalar_subquery_", oc))
            },
        };
        let ty = if typ == SubqueryType::Scalar {
            data_type.wrap_nullable()
        } else if let UnnestResult::MarkJoin { .. } = result {
            DataType::nullable_boolean()
        } else {
            data_type
        };
        if from_count_func {
            let nu64 = DataType::number(NumberDataType::UInt64).wrap_nullable();
            let is_not_null = Scalar::FunctionCall(
                FunctionCall {
                    arguments: vec![column_ref(index, name.clone(), ty)],
                    func_name: String::from_str("is_not_null"),
                    return_type: DataType::boolean(),
                },
            );
            let zero = Scalar::ConstantExpr(
                ConstantExpr {
                    value: Literal::Int64(0),
                    data_type: DataType::number(NumberDataType::Int64).wrap_nullable(),
                },
            );
            let col = column_ref(index, name, ty);
            Scalar::CastExpr(
                CastExpr {
                    argument: Box::new(
                        Scalar::FunctionCall(
                            FunctionCall {
                                arguments: vec![is_not_null, col, zero],
                                func_name: String::from_str("if"),
                                return_type: nu64,
                            },
                        ),
                    ),
                    from_type: ty,
                    target_type: nu64,
                },
            )
        } else if typ == SubqueryType::NotExists {
            Scalar::FunctionCall(
                FunctionCall {
                    arguments: vec![column_ref(index, name, ty)],
                    func_name: String::from_str("not"),
                    return_type: DataType::nullable_boolean(),
                },
            )
        } else {
            column_ref(index, name, ty)
        }
    }

    /// Unnests the uncorrelated subquery `subquery` against `left`: a single
    /// join for a scalar subquery; a cross join with
    /// `Filter(count(*) = 1) <- Aggregate(count(*)) <- Limit(1)` over the
    /// subquery for `EXISTS` (the filter negated for `NOT EXISTS`); a right
    /// mark join for `ANY`, its marker minted unless assigned in advance.
    pub fn try_rewrite_uncorrelated_subquery(&mut self, left: SExpr, subquery: SubqueryExpr) -> (r:
        Result<(SExpr, UnnestResult), ErrorCode>)
        ensures
            final(self).derived_columns@ == old(self).derived_columns@,
            r is Err <==> uncorrelated_fails(subquery),
            r is Err ==> final(self).metadata.entries() == old(self).metadata.entries(),
            r matches Ok((e, res)) ==> is_uncorrelated_rewrite(
                e,
                res,
                left,
                subquery,
                old(self).metadata.entries(),
                final(self).metadata.entries(),
            ),
    {
        match subquery.typ {
            SubqueryType::Scalar => {
                let join = Join {
                    left_conditions: no_conditions(),
                    right_conditions: no_conditions(),
                    non_equi_conditions: no_conditions(),
                    join_type: JoinType::Single,
                    marker_index: None,
                    from_correlated_subquery: false,
                };
                Ok((SExpr::Join(join, Box::new(left), subquery.subquery), UnnestResult::SingleJoin))
            },
            SubqueryType::Exists | SubqueryType::NotExists => {
                let negated = subquery.typ == SubqueryType::NotExists;
                let limited = SExpr::Limit(Limit { limit: Some(1), offset: 0 }, subquery.subquery);
                let count_type = count_return_type();
                let agg_index = self.metadata.add_derived_column(
                    String::from_str("count(*)"),
                    count_type,
                );
                let count = Scalar::AggregateFunction(
                    AggregateFunction {
                        display_name: String::from_str("count(*)"),
                        func_name: String::from_str("count"),
                        distinct: false,
                        params: Vec::new(),
                        args: Vec::new(),
                        return_type: count_type,
                    },
                );
                let agg = Aggregate {
                    group_items: Vec::new(),
                    aggregate_functions: vec![ScalarItem { scalar: count, index: agg_index }],
                    from_distinct: false,
                    mode: AggregateMode::Initial,
                };
                let compare = Scalar::ComparisonExpr(
                    ComparisonExpr {
                        op: ComparisonOp::Equal,
                        left: Box::new(
                            column_ref(agg_index, String::from_str("count(*)"), count_type),
                        ),
                        right: Box::new(
                            Scalar::ConstantExpr(
                                ConstantExpr {
                                    value: Literal::UInt64(1),
                                    data_type: DataType::number(
                                        NumberDataType::UInt64,
                                    ).wrap_nullable(),
                                },
                            ),
                        ),
                        return_type: DataType::boolean().wrap_nullable(),
                    },
                );
                let predicate = if negated {
                    Scalar::NotExpr(
                        NotExpr {
                            argument: Box::new(compare),
                            return_type: DataType::boolean().wrap_nullable(),
                        },
                    )
                } else {
                    compare
                };
                let filter = Filter { predicates: vec![predicate], is_having: false };
                let rewritten = SExpr::Filter(
                    filter,
                    Box::new(SExpr::Aggregate(agg, Box::new(limited))),
                );
                let join = Join {
                    left_conditions: no_conditions(),
                    right_conditions: no_conditions(),
                    non_equi_conditions: no_conditions(),
                    join_type: JoinType::Cross,
                    marker_index: None,
                    from_correlated_subquery: false,
                };
                Ok(
                    (
                        SExpr::Join(join, Box::new(left), Box::new(rewritten)),
                        UnnestResult::SimpleJoin,
                    ),
                )
            },
            SubqueryType::Any => {
                let ghost q = subquery;
                let SubqueryExpr {
                    typ: _,
                    subquery: plan,
                    child_expr,
                    compare_op,
                    output_column,
                    projection_index,
                    data_type,
                } = subquery;
                let child_expr = match child_expr {
                    Some(c) => c,
                    None => {
                        return Err(internal("ANY subquery without a left-hand side"));
                    },
                };
                let op = match compare_op {
                    Some(op) => op,
                    None => {
                        return Err(internal("ANY subquery without a comparison operator"));
                    },
                };
                let (right_condition, non_equi) = match check_child_expr_in_subquery(
                    *child_expr,
                    op,
                ) {
                    Ok(res) => res,
                    Err(e) => {
                        return Err(e);
                    },
                };
                let marker_index = match projection_index {
                    Some(i) => i,
                    None => self.metadata.add_derived_column(
                        String::from_str("marker"),
                        DataType::nullable_boolean(),
                    ),
                };
                let left_condition = column_ref(
                    output_column,
                    index_name("subquery_", output_column),
                    data_type,
                );
                let ghost ce = right_condition;
                let join = if !non_equi {
                    let join = Join {
                        left_conditions: vec![right_condition],
                        right_conditions: vec![left_condition],
                        non_equi_conditions: no_conditions(),
                        join_type: JoinType::RightMark,
                        marker_index: Some(marker_index),
                        from_correlated_subquery: false,
                    };
                    assert(join.left_conditions@ =~= seq![ce]);
                    join
                } else {
                    let other = Scalar::ComparisonExpr(
                        ComparisonExpr {
                            op,
                            left: Box::new(right_condition),
                            right: Box::new(left_condition),
                            return_type: DataType::nullable_boolean(),
                        },
                    );
                    Join {
                        left_conditions: no_conditions(),
                        right_conditions: no_conditions(),
                        non_equi_conditions: vec![other],
                        join_type: JoinType::RightMark,
                        marker_index: Some(marker_index),
                        from_correlated_subquery: false,
                    }
                };
                Ok(
                    (
                        SExpr::Join(join, Box::new(left), plan),
                        UnnestResult::MarkJoin { marker_index },
                    ),
                )
            },
            SubqueryType::All => Err(internal("ALL subquery cannot be unnested")),
        }
    }

    /// Flattens a correlated scalar subquery of the shape
    /// `Aggregate(no group keys) <- Filter(preds) <- input`, without nested
    /// subqueries, whose outer references all stand in predicates
    /// `inner = outer` between a column of `input` and one it does not
    /// produce. Those predicates become the keys of a correlated single join,
    /// the aggregate is grouped by the inner keys, and the other predicates
    /// stay in the filter. `flatten_info` records whether the value is a
    /// `COUNT`, whose unmatched rows must read zero. Any other correlated
    /// subquery is an internal error, and then nothing is changed.
    fn try_decorrelate_subquery(
        &mut self,
        left: SExpr,
        subquery: SubqueryExpr,
        flatten_info: &mut FlattenInfo,
        is_conjunctive_predicate: bool,
    ) -> (r: Result<(SExpr, UnnestResult), ErrorCode>)
        ensures
            *final(self) == *old(self),
            r is Err <==> !decorrelate_ok(subquery),
            r is Err ==> *final(flatten_info) == *old(flatten_info),
            r matches Ok((e, res)) ==> res == UnnestResult::SingleJoin && is_decorrelated(
                e,
                left,
                subquery,
            ) && final(flatten_info).from_count_func == is_count_agg(subquery) && (
            plan_subquery_free(left) ==> plan_subquery_free(e)),
    {
        let ghost q = subquery;
        if subquery.typ != SubqueryType::Scalar {
            return Err(internal("only a correlated scalar subquery can be flattened"));
        }
        if !crate::plan::plan_is_subquery_free(&subquery.subquery) {
            return Err(internal("correlated subquery holds a subquery"));
        }
        let (agg, input) = match *subquery.subquery {
            SExpr::Aggregate(agg, input) => (agg, input),
            _ => {
                return Err(internal("correlated subquery is not an aggregate"));
            },
        };
        if agg.group_items.len() != 0 {
            return Err(internal("correlated subquery has group keys"));
        }
        let ghost input0 = *input;
        assert(*q.subquery == SExpr::Aggregate(agg, input));
        let (filter, x) = match *input {
            SExpr::Filter(filter, x) => (filter, x),
            _ => {
                return Err(internal("correlated subquery has no filter"));
            },
        };
        assert(input0 == SExpr::Filter(filter, x));
        proof {
            assert(plan_subquery_free(input0));
            assert(crate::scalar::scalars_subquery_free(filter.predicates@));
            assert(plan_subquery_free(*x));
        }
        let produced = crate::property::output_columns(&x);
        // At least one key, and no outer reference outside the keys.
        let mut has_key = false;
        let mut i: usize = 0;
        while i < filter.predicates.len()
            invariant
                0 <= i <= filter.predicates@.len(),
                input0 == SExpr::Filter(filter, x),
                q == subquery,
                q.typ == SubqueryType::Scalar,
                plan_subquery_free(*q.subquery),
                match *q.subquery {
                    SExpr::Aggregate(a, inp) => *inp == input0 && a.group_items@.len() == 0,
                    _ => false,
                },
                forall|c: usize| #[trigger] produced@.contains(c) <==> plan_outputs(*x, c),
                has_key == exists|k: int| 0 <= k < i && #[trigger] is_key(filter.predicates@[k], *x),
                forall|k: int, c: usize|
                    0 <= k < i && !is_key(filter.predicates@[k], *x) && #[trigger] crate::property::scalar_uses(
                        filter.predicates@[k],
                        c,
                    ) ==> plan_outputs(*x, c),
            decreases filter.predicates.len() - i,
        {
            let p = &filter.predicates[i];
            if key_side(p, &produced, &x).is_some() {
                has_key = true;
            } else {
                let used = crate::property::scalar_columns(p);
                if !crate::property::all_contained(&used, &produced) {
                    proof {
                        let c = choose|c: usize| used@.contains(c) && !produced@.contains(c);
                        assert(crate::property::scalar_uses(filter.predicates@[i as int], c));
                        assert(!plan_outputs(*x, c));
                        assert(!is_key(filter.predicates@[i as int], *x));
                        assert(!crate::unnest_spec::refs_bound(filter.predicates@, *x));

                    }
                    return Err(internal("correlated subquery refers outward outside equalities"));
                }
                assert forall|c: usize| #[trigger]
                    crate::property::scalar_uses(filter.predicates@[i as int], c) implies plan_outputs(
                    *x,
                    c,
                ) by {
                    assert(used@.contains(c));
                    assert(produced@.contains(c));
                }
            }
            i += 1;
        }
        if !has_key {
            return Err(internal("correlated subquery is not correlated by equalities"));
        }
        let agg_used = crate::property::items_columns(&agg.aggregate_functions);
        if !crate::property::all_contained(&agg_used, &produced) {
            return Err(internal("correlated aggregate refers outward"));
        }
        let x_outer = crate::property::outer_columns(&x);
        if x_outer.len() != 0 {
            proof {
                assert(x_outer@.contains(x_outer@[0]));
            }
            return Err(internal("correlated subquery input refers outward"));
        }
        proof {
            assert forall|c: usize| !#[trigger] crate::property::plan_outer(*x, c) by {
                if crate::property::plan_outer(*x, c) {
                    assert(x_outer@.contains(c));
                }
            }
            assert forall|c: usize| #[trigger] crate::property::items_use(agg.aggregate_functions@, c)
                implies plan_outputs(*x, c) by {
                assert(agg_used@.contains(c));
                assert(produced@.contains(c));
            }
            assert(input0 == SExpr::Filter(filter, x));
            assert(decorrelate_ok(q));
        }
        let is_count = agg.aggregate_functions.len() == 1 && match &agg.aggregate_functions[0].scalar {
            Scalar::AggregateFunction(f) => f.func_name == String::from_str("count"),
            _ => false,
        };
        let ghost preds0 = filter.predicates@;
        let (kept, outer_keys, inner_keys) = split_correlated(filter.predicates, &produced, &x);
        let mut group_items: Vec<ScalarItem> = Vec::new();
        let mut k: usize = 0;
        while k < inner_keys.len()
            invariant
                0 <= k <= inner_keys@.len(),
                group_items@ == inner_keys@.subrange(0, k as int).map_values(
                    |s: Scalar| group_item_of(s),
                ),
                forall|i: int| 0 <= i < inner_keys@.len() ==> (#[trigger] inner_keys@[i]) is BoundColumnRef,
            decreases inner_keys.len() - k,
        {
            if let Scalar::BoundColumnRef(c) = &inner_keys[k] {
                group_items.push(
                    ScalarItem {
                        scalar: Scalar::BoundColumnRef(BoundColumnRef { column: copy_binding(&c.column) }),
                        index: c.column.index,
                    },
                );
            }
            assert(group_items@ =~= inner_keys@.subrange(0, k + 1).map_values(
                |s: Scalar| group_item_of(s),
            ));
            k += 1;
        }
        assert(inner_keys@.subrange(0, inner_keys@.len() as int) =~= inner_keys@);
        assert forall|i: int| 0 <= i < group_items@.len() implies (#[trigger] group_items@[i]).scalar is BoundColumnRef by {
            assert(group_items@[i] == group_item_of(inner_keys@[i]));
        }
        let ghost agg_fns = agg.aggregate_functions@;
        let filtered = if kept.len() == 0 {
            *x
        } else {
            SExpr::Filter(Filter { predicates: kept, is_having: filter.is_having }, x)
        };
        let grouped = SExpr::Aggregate(
            Aggregate {
                group_items,
                aggregate_functions: agg.aggregate_functions,
                from_distinct: agg.from_distinct,
                mode: agg.mode,
            },
            Box::new(filtered),
        );
        let join = Join {
            left_conditions: outer_keys,
            right_conditions: inner_keys,
            non_equi_conditions: no_conditions(),
            join_type: JoinType::Single,
            marker_index: None,
            from_correlated_subquery: true,
        };
        proof {
            lemma_column_refs_free(join.left_conditions@);
            lemma_column_refs_free(join.right_conditions@);
            assert(crate::plan::join_subquery_free(join));
            assert forall|i: int| 0 <= i < crate::plan::item_scalars(group_items@).len() implies #[trigger]
                scalar_subquery_free(crate::plan::item_scalars(group_items@)[i]) by {
                assert(crate::plan::item_scalars(group_items@)[i] == group_items@[i].scalar);
            }
            lemma_kept_free(preds0, *x);
            assert(crate::scalar::scalars_subquery_free(crate::plan::item_scalars(agg_fns)));
            assert(plan_subquery_free(filtered));
            assert(plan_subquery_free(grouped));
        }
        flatten_info.from_count_func = is_count;
        Ok((SExpr::Join(join, Box::new(left), Box::new(grouped)), UnnestResult::SingleJoin))
    }

    /// Replaces each subquery in `scalar` by a subquery-free scalar and grafts
    /// the join that computes it onto `s_expr`, threading the growing plan
    /// through the sub-expressions from left to right. A scalar without
    /// subqueries, or an aggregate, comes back as it is, with `s_expr`.
    /// It fails exactly when some subquery it reaches cannot be unnested.
    pub fn try_rewrite_subquery(
        &mut self,
        scalar: Scalar,
        s_expr: SExpr,
        is_conjunctive_predicate: bool,
    ) -> (r: Result<(Scalar, SExpr), ErrorCode>)
        ensures
            registry_extends(old(self).metadata.entries(), final(self).metadata.entries()),
            final(self).derived_columns@ == old(self).derived_columns@,
            scalar_subquery_free(scalar) ==> r == Ok::<(Scalar, SExpr), ErrorCode>((scalar, s_expr))
                && final(self).metadata.entries() == old(self).metadata.entries(),
            r is Err <==> scalar_fails(scalar),
            r matches Ok((s2, e2)) ==> scalar_rel(
                scalar,
                s_expr,
                old(self).metadata.entries(),
                old(self).derived_columns@,
                s2,
                e2,
                final(self).metadata.entries(),
            ) && final(self).metadata.entries().len() == old(self).metadata.entries().len()
                + scalar_mints(scalar) && peel(e2, scalar_count(scalar)) == s_expr,
            r matches Ok((s2, e2)) ==> (scalar_rewritable(scalar) ==> scalar_subquery_free(s2) && (
            plan_subquery_free(s_expr) ==> plan_subquery_free(e2))),
        decreases scalar,
    {
        if scalar_is_subquery_free(&scalar) {
            proof {
                lemma_scalar_free_inert(scalar);
            }
            return Ok((scalar, s_expr));
        }
        let ghost md0 = self.metadata.entries();
        match scalar {
            Scalar::BoundColumnRef(_) => Ok((scalar, s_expr)),
            Scalar::ConstantExpr(_) => Ok((scalar, s_expr)),
            Scalar::AggregateFunction(_) => Ok((scalar, s_expr)),
            Scalar::AndExpr(e) => {
                let ghost l0 = *e.left;
                let ghost r0 = *e.right;
                let (left, s1) = match self.try_rewrite_subquery(*e.left, s_expr, false) {
                    Ok(res) => res,
                    Err(err) => return Err(err),
                };
                let ghost md1 = self.metadata.entries();
                let (right, s2) = match self.try_rewrite_subquery(*e.right, s1, false) {
                    Ok(res) => res,
                    Err(err) => return Err(err),
                };
                proof {
                    lemma_prefix_of(md1, self.metadata.entries());
                    lemma_peel_add(s2, scalar_count(r0), scalar_count(l0));
                }
                Ok(
                    (
                        Scalar::AndExpr(
                            crate::scalar::AndExpr {
                                left: Box::new(left),
                                right: Box::new(right),
                                return_type: e.return_type,
                            },
                        ),
                        s2,
                    ),
                )
            },
            Scalar::OrExpr(e) => {
                let ghost l0 = *e.left;
                let ghost r0 = *e.right;
                let (left, s1) = match self.try_rewrite_subquery(*e.left, s_expr, false) {
                    Ok(res) => res,
                    Err(err) => return Err(err),
                };
                let ghost md1 = self.metadata.entries();
                let (right, s2) = match self.try_rewrite_subquery(*e.right, s1, false) {
                    Ok(res) => res,
                    Err(err) => return Err(err),
                };
                proof {
                    lemma_prefix_of(md1, self.metadata.entries());
                    lemma_peel_add(s2, scalar_count(r0), scalar_count(l0));
                }
                Ok(
                    (
                        Scalar::OrExpr(
                            crate::scalar::OrExpr {
                                left: Box::new(left),
                                right: Box::new(right),
                                return_type: e.return_type,
                            },
                        ),
                        s2,
                    ),
                )
            },
            Scalar::ComparisonExpr(e) => {
                let ghost l0 = *e.left;
                let ghost r0 = *e.right;
                let (left, s1) = match self.try_rewrite_subquery(*e.left, s_expr, false) {
                    Ok(res) => res,
                    Err(err) => return Err(err),
                };
                let ghost md1 = self.metadata.entries();
                let (right, s2) = match self.try_rewrite_subquery(*e.right, s1, false) {
                    Ok(res) => res,
                    Err(err) => return Err(err),
                };
                proof {
                    lemma_prefix_of(md1, self.metadata.entries());
                    lemma_peel_add(s2, scalar_count(r0), scalar_count(l0));
                }
                Ok(
                    (
                        Scalar::ComparisonExpr(
                            ComparisonExpr {
                                op: e.op,
                                left: Box::new(left),
                                right: Box::new(right),
                                return_type: e.return_type,
                            },
                        ),
                        s2,
                    ),
                )
            },
            Scalar::NotExpr(e) => {
                let (argument, s1) = match self.try_rewrite_subquery(*e.argument, s_expr, false) {
                    Ok(res) => res,
                    Err(err) => return Err(err),
                };
                Ok(
                    (
                        Scalar::NotExpr(
                            NotExpr { argument: Box::new(argument), return_type: e.return_type },
                        ),
                        s1,
                    ),
                )
            },
            Scalar::FunctionCall(func) => {
                let (arguments, s1) = match self.rewrite_scalars(func.arguments, s_expr, false) {
                    Ok(res) => res,
                    Err(err) => return Err(err),
                };
                proof {
                    crate::scalar::lemma_all_subquery_free(arguments@);
                }
                Ok(
                    (
                        Scalar::FunctionCall(
                            FunctionCall {
                                arguments,
                                func_name: func.func_name,
                                return_type: func.return_type,
                            },
                        ),
                        s1,
                    ),
                )
            },
            Scalar::CastExpr(cast) => {
                let (argument, s1) = match self.try_rewrite_subquery(*cast.argument, s_expr, false) {
                    Ok(res) => res,
                    Err(err) => return Err(err),
                };
                Ok(
                    (
                        Scalar::CastExpr(
                            CastExpr {
                                argument: Box::new(argument),
                                from_type: cast.from_type,
                                target_type: cast.target_type,
                            },
                        ),
                        s1,
                    ),
                )
            },
            Scalar::SubqueryExpr(subquery) => {
                let ghost q = subquery;
                let SubqueryExpr {
                    typ,
                    subquery: plan,
                    child_expr,
                    compare_op,
                    output_column,
                    projection_index,
                    data_type,
                } = subquery;
                // Correlation is read off the subquery's own plan.
                let outer = outer_columns(&plan);
                let mut flatten_info = FlattenInfo { from_count_func: false };
                if outer.len() != 0 {
                    proof {
                        assert(outer@.contains(outer@[0]));
                        assert(is_correlated(*q.subquery));
                    }
                    let subquery = SubqueryExpr {
                        typ,
                        subquery: plan,
                        child_expr,
                        compare_op,
                        output_column,
                        projection_index,
                        data_type,
                    };
                    assert(subquery == q);
                    let (s_expr2, result) = match self.try_decorrelate_subquery(
                        s_expr,
                        subquery,
                        &mut flatten_info,
                        is_conjunctive_predicate,
                    ) {
                        Ok(res) => res,
                        Err(err) => return Err(err),
                    };
                    let scalar2 = self.subquery_replacement(
                        typ,
                        output_column,
                        data_type,
                        result,
                        flatten_info.from_count_func,
                    );
                    proof {
                        lemma_replacement_free(
                            scalar2,
                            typ,
                            output_column,
                            data_type,
                            result,
                            flatten_info.from_count_func,
                            self.derived_columns@,
                        );
                        let g = s_expr2;
                        if let SExpr::Join(_, l, _) = g {
                            assert(peel(g, 1) == peel(*l, 0));
                        }
                        assert(self.metadata.entries() == md0);
                        assert(is_decorrelated(s_expr2, s_expr, q));
                        assert(is_subquery_replacement(
                            scalar2,
                            q.typ,
                            q.output_column,
                            q.data_type,
                            UnnestResult::SingleJoin,
                            is_count_agg(q),
                            self.derived_columns@,
                        ));
                        assert(subquery_rel(
                            q,
                            s_expr,
                            md0,
                            self.derived_columns@,
                            scalar2,
                            s_expr2,
                            self.metadata.entries(),
                        ));
                    }
                    Ok((scalar2, s_expr2))
                } else {
                    proof {
                        assert forall|c: usize| !crate::property::plan_outer(*q.subquery, c) by {
                            if crate::property::plan_outer(*q.subquery, c) {
                                assert(outer@.contains(c));
                            }
                        }
                        assert(!is_correlated(*q.subquery));
                    }
                    // Subqueries may hold subqueries: rewrite the nested plan first.
                    let plan = match self.rewrite(*plan) {
                        Ok(p) => p,
                        Err(err) => return Err(err),
                    };
                    let ghost mda = self.metadata.entries();
                    let subquery = SubqueryExpr {
                        typ,
                        subquery: Box::new(plan),
                        child_expr,
                        compare_op,
                        output_column,
                        projection_index,
                        data_type,
                    };
                    assert(subquery == with_plan(q, plan));
                    let ghost q2 = subquery;
                    let ghost s_expr0 = s_expr;
                    let (s_expr2, result) = match self.try_rewrite_uncorrelated_subquery(
                        s_expr,
                        subquery,
                    ) {
                        Ok(res) => res,
                        Err(err) => return Err(err),
                    };
                    let scalar2 = self.subquery_replacement(
                        typ,
                        output_column,
                        data_type,
                        result,
                        false,
                    );
                    proof {
                        lemma_uncorrelated_extends(q2, mda, self.metadata.entries());
                        lemma_prefix_of(mda, self.metadata.entries());
                        if scalar_rewritable(scalar) && plan_subquery_free(s_expr0) {
                            lemma_uncorrelated_free(
                                s_expr2,
                                result,
                                s_expr0,
                                q2,
                                mda,
                                self.metadata.entries(),
                            );
                        }
                        lemma_replacement_free(
                            scalar2,
                            typ,
                            output_column,
                            data_type,
                            result,
                            false,
                            self.derived_columns@,
                        );
                        assert(unnested_plan(s_expr2, typ) == plan);
                        assert(result == uncorrelated_result(q, mda));
                        let g = s_expr2;
                        if let SExpr::Join(_, l, _) = g {
                            assert(peel(g, 1) == peel(*l, 0));
                        }
                        assert(subquery_rel(
                            q,
                            s_expr0,
                            md0,
                            self.derived_columns@,
                            scalar2,
                            s_expr2,
                            self.metadata.entries(),
                        ));
                    }
                    Ok((scalar2, s_expr2))
                }
            },
        }
    }

    /// Rewrites each scalar of `scalars` in turn, threading the plan; the
    /// scalars are the conjuncts of a filter when `is_conjunctive_predicate`.
    fn rewrite_scalars(
        &mut self,
        scalars: Vec<Scalar>,
        input: SExpr,
        is_conjunctive_predicate: bool,
    ) -> (r: Result<(Vec<Scalar>, SExpr), ErrorCode>)
        ensures
            registry_extends(old(self).metadata.entries(), final(self).metadata.entries()),
            final(self).derived_columns@ == old(self).derived_columns@,
            r is Err <==> seq_fails(scalars@),
            r matches Ok((v, e)) ==> seq_rel(
                scalars@,
                input,
                old(self).metadata.entries(),
                old(self).derived_columns@,
                v@,
                e,
                final(self).metadata.entries(),
            ) && final(self).metadata.entries().len() == old(self).metadata.entries().len()
                + seq_mints(scalars@) && peel(e, seq_count(scalars@)) == input,
            r matches Ok((v, e)) ==> v@.len() == scalars@.len() && (crate::plan::seq_rewritable(
                scalars@,
            ) ==> crate::scalar::scalars_subquery_free(v@) && (plan_subquery_free(input)
                ==> plan_subquery_free(e))),
        decreases scalars,
    {
        let ghost orig = scalars;
        let ghost md0 = self.metadata.entries();
        let ghost input0 = input;
        let ghost rw0 = crate::plan::seq_rewritable(scalars@);
        let ghost rw = rw0 && plan_subquery_free(input);
        proof {
            lemma_extends_refl(md0);
            crate::plan::lemma_seq_rewritable(scalars@);
            assert(orig@.subrange(0, 0) =~= Seq::<Scalar>::empty());
        }
        let n = scalars.len();
        let mut rest = scalars;
        let mut out: Vec<Scalar> = Vec::new();
        let mut input = input;
        let mut k: usize = 0;
        while k < n
            invariant
                n == orig@.len(),
                0 <= k <= n,
                md0 == old(self).metadata.entries(),
                orig == scalars,
                rest@ == orig@.subrange(k as int, n as int),
                out@.len() == k,
                registry_extends(md0, self.metadata.entries()),
                self.derived_columns@ == old(self).derived_columns@,
                seq_rel(
                    orig@.subrange(0, k as int),
                    input0,
                    md0,
                    old(self).derived_columns@,
                    out@,
                    input,
                    self.metadata.entries(),
                ),
                self.metadata.entries().len() == md0.len() + seq_mints(orig@.subrange(0, k as int)),
                peel(input, seq_count(orig@.subrange(0, k as int))) == input0,
                !seq_fails(orig@.subrange(0, k as int)),
                rw0 ==> crate::scalar::scalars_subquery_free(out@),
                rw0 ==> forall|i: int| 0 <= i < n ==> #[trigger] scalar_rewritable(orig@[i]),
                rw ==> rw0 && plan_subquery_free(input),
            decreases n - k,
        {
            let s = rest.remove(0);
            proof {
                vstd::std_specs::vec::axiom_vec_index_decreases(orig, k as int);
                assert(s == orig[k as int]);
                assert(decreases_to!(orig => s));
                assert(s == orig@[k as int]);
                assert(rw0 ==> scalar_rewritable(s));
            }
            let ghost sub = orig@.subrange(0, k + 1);
            assert(sub.drop_last() =~= orig@.subrange(0, k as int));
            assert(sub.last() == s);
            let ghost mdk = self.metadata.entries();
            let ghost ink = input;
            let ghost outk = out@;
            let ghost s0 = s;
            let (s2, next) = match self.try_rewrite_subquery(s, input, is_conjunctive_predicate) {
                Ok(res) => res,
                Err(err) => {
                    proof {
                        assert(seq_fails(sub));
                        lemma_seq_fails_prefix(orig@, k + 1);
                    }
                    return Err(err);
                },
            };
            out.push(s2);
            input = next;
            proof {
                lemma_prefix_of(mdk, self.metadata.entries());
                lemma_peel_add(next, scalar_count(s0), seq_count(orig@.subrange(0, k as int)));
                assert(out@.drop_last() =~= outk);
                assert(out@.last() == s2);
            }
            assert(rest@ =~= orig@.subrange(k + 1, n as int));
            k += 1;
        }
        assert(orig@.subrange(0, n as int) =~= orig@);
        Ok((out, input))
    }

    /// Rewrites the scalar of each item of `items` in turn, threading the plan.
    fn rewrite_items(&mut self, items: Vec<ScalarItem>, input: SExpr) -> (r: Result<
        (Vec<ScalarItem>, SExpr),
        ErrorCode,
    >)
        ensures
            registry_extends(old(self).metadata.entries(), final(self).metadata.entries()),
            final(self).derived_columns@ == old(self).derived_columns@,
            r is Err <==> items_fails(items@),
            r matches Ok((v, e)) ==> items_rel(
                items@,
                input,
                old(self).metadata.entries(),
                old(self).derived_columns@,
                v@,
                e,
                final(self).metadata.entries(),
            ) && final(self).metadata.entries().len() == old(self).metadata.entries().len()
                + items_mints(items@) && peel(e, items_count(items@)) == input,
            r matches Ok((v, e)) ==> v@.len() == items@.len() && (forall|i: int|
                0 <= i < v@.len() ==> #[trigger] v@[i].index == items@[i].index)
                && (crate::plan::items_rewritable(items@) ==> crate::scalar::scalars_subquery_free(
                crate::plan::item_scalars(v@),
            ) && (plan_subquery_free(input) ==> plan_subquery_free(e))),
        decreases items,
    {
        let ghost orig = items;
        let ghost md0 = self.metadata.entries();
        let ghost input0 = input;
        let ghost rw0 = crate::plan::items_rewritable(items@);
        let ghost rw = rw0 && plan_subquery_free(input);
        proof {
            lemma_extends_refl(md0);
            crate::plan::lemma_items_rewritable(items@);
            assert(orig@.subrange(0, 0) =~= Seq::<ScalarItem>::empty());
        }
        let n = items.len();
        let mut rest = items;
        let mut out: Vec<ScalarItem> = Vec::new();
        let mut input = input;
        let mut k: usize = 0;
        while k < n
            invariant
                n == orig@.len(),
                0 <= k <= n,
                md0 == old(self).metadata.entries(),
                orig == items,
                rest@ == orig@.subrange(k as int, n as int),
                out@.len() == k,
                forall|i: int| 0 <= i < k ==> #[trigger] out@[i].index == orig@[i].index,
                registry_extends(md0, self.metadata.entries()),
                self.derived_columns@ == old(self).derived_columns@,
                items_rel(
                    orig@.subrange(0, k as int),
                    input0,
                    md0,
                    old(self).derived_columns@,
                    out@,
                    input,
                    self.metadata.entries(),
                ),
                self.metadata.entries().len() == md0.len() + items_mints(orig@.subrange(0, k as int)),
                peel(input, items_count(orig@.subrange(0, k as int))) == input0,
                !items_fails(orig@.subrange(0, k as int)),
                rw0 ==> forall|i: int| 0 <= i < k ==> #[trigger] scalar_subquery_free(out@[i].scalar),
                rw0 ==> forall|i: int| 0 <= i < n ==> #[trigger] scalar_rewritable(orig@[i].scalar),
                rw ==> rw0 && plan_subquery_free(input),
            decreases n - k,
        {
            let item = rest.remove(0);
            proof {
                vstd::std_specs::vec::axiom_vec_index_decreases(orig, k as int);
                assert(item == orig[k as int]);
                assert(decreases_to!(orig => item.scalar));
                assert(item == orig@[k as int]);
                assert(rw0 ==> scalar_rewritable(item.scalar));
            }
            let ghost sub = orig@.subrange(0, k + 1);
            assert(sub.drop_last() =~= orig@.subrange(0, k as int));
            assert(sub.last() == item);
            let ghost mdk = self.metadata.entries();
            let ghost outk = out@;
            let ScalarItem { scalar, index } = item;
            let ghost s0 = scalar;
            let (s2, next) = match self.try_rewrite_subquery(scalar, input, false) {
                Ok(res) => res,
                Err(err) => {
                    proof {
                        assert(items_fails(sub));
                        lemma_items_fails_prefix(orig@, k + 1);
                    }
                    return Err(err);
                },
            };
            out.push(ScalarItem { scalar: s2, index });
            input = next;
            proof {
                lemma_prefix_of(mdk, self.metadata.entries());
                lemma_peel_add(next, scalar_count(s0), items_count(orig@.subrange(0, k as int)));
                assert(out@.drop_last() =~= outk);
                assert(out@.last().scalar == s2);
            }
            assert(rest@ =~= orig@.subrange(k + 1, n as int));
            k += 1;
        }
        assert(orig@.subrange(0, n as int) =~= orig@);
        assert forall|i: int| rw0 && 0 <= i < crate::plan::item_scalars(out@).len() implies #[trigger]
            scalar_subquery_free(crate::plan::item_scalars(out@)[i]) by {
            assert(crate::plan::item_scalars(out@)[i] == out@[i].scalar);
        }
        Ok((out, input))
    }

    /// Rewrites every subquery of the plan into joins. Operators that carry
    /// scalars rewrite their input first, then their scalars in order, each
    /// seeing the plan that the previous one grew; joins and unions rewrite
    /// both inputs apart; limits and sorts their input; scans stay. A plan
    /// without subqueries comes back as it is. It fails exactly when some
    /// subquery that the walk reaches cannot be unnested.
    pub fn rewrite(&mut self, s_expr: SExpr) -> (r: Result<SExpr, ErrorCode>)
        ensures
            registry_extends(old(self).metadata.entries(), final(self).metadata.entries()),
            final(self).derived_columns@ == old(self).derived_columns@,
            plan_subquery_free(s_expr) ==> r == Ok::<SExpr, ErrorCode>(s_expr)
                && final(self).metadata.entries() == old(self).metadata.entries(),
            r is Err <==> plan_fails(s_expr),
            r matches Ok(e) ==> plan_rel(
                s_expr,
                old(self).metadata.entries(),
                old(self).derived_columns@,
                e,
                final(self).metadata.entries(),
            ) && final(self).metadata.entries().len() == old(self).metadata.entries().len()
                + plan_mints(s_expr),
            r matches Ok(e) ==> (plan_rewritable(s_expr) ==> plan_subquery_free(e)),
        decreases s_expr,
    {
        if crate::plan::plan_is_subquery_free(&s_expr) {
            proof {
                lemma_extends_refl(self.metadata.entries());
                lemma_plan_free_inert(s_expr);
            }
            return Ok(s_expr);
        }
        let ghost md0 = self.metadata.entries();
        match s_expr {
            SExpr::EvalScalar(plan, child) => {
                let input = match self.rewrite(*child) {
                    Ok(e) => e,
                    Err(err) => return Err(err),
                };
                let ghost md1 = self.metadata.entries();
                let (items, input) = match self.rewrite_items(plan.items, input) {
                    Ok(res) => res,
                    Err(err) => return Err(err),
                };
                proof {
                    lemma_extends_trans(md0, md1, self.metadata.entries());
                    lemma_prefix_of(md1, self.metadata.entries());
                }
                Ok(SExpr::EvalScalar(crate::plan::EvalScalar { items }, Box::new(input)))
            },
            SExpr::Filter(plan, child) => {
                let input = match self.rewrite(*child) {
                    Ok(e) => e,
                    Err(err) => return Err(err),
                };
                let ghost md1 = self.metadata.entries();
                let (predicates, input) = match self.rewrite_scalars(plan.predicates, input, true) {
                    Ok(res) => res,
                    Err(err) => return Err(err),
                };
                proof {
                    lemma_extends_trans(md0, md1, self.metadata.entries());
                    lemma_prefix_of(md1, self.metadata.entries());
                }
                Ok(
                    SExpr::Filter(
                        Filter { predicates, is_having: plan.is_having },
                        Box::new(input),
                    ),
                )
            },
            SExpr::Aggregate(plan, child) => {
                let input = match self.rewrite(*child) {
                    Ok(e) => e,
                    Err(err) => return Err(err),
                };
                let ghost md1 = self.metadata.entries();
                let (group_items, input) = match self.rewrite_items(plan.group_items, input) {
                    Ok(res) => res,
                    Err(err) => return Err(err),
                };
                let ghost md2 = self.metadata.entries();
                let (aggregate_functions, input) = match self.rewrite_items(
                    plan.aggregate_functions,
                    input,
                ) {
                    Ok(res) => res,
                    Err(err) => return Err(err),
                };
                proof {
                    lemma_extends_trans(md0, md1, md2);
                    lemma_extends_trans(md0, md2, self.metadata.entries());
                    lemma_extends_trans(md1, md2, self.metadata.entries());
                    lemma_prefix_of(md1, self.metadata.entries());
                    lemma_prefix_of(md2, self.metadata.entries());
                }
                Ok(
                    SExpr::Aggregate(
                        Aggregate {
                            group_items,
                            aggregate_functions,
                            from_distinct: plan.from_distinct,
                            mode: plan.mode,
                        },
                        Box::new(input),
                    ),
                )
            },
            SExpr::Join(plan, left, right) => {
                let left = match self.rewrite(*left) {
                    Ok(e) => e,
                    Err(err) => return Err(err),
                };
                let ghost md1 = self.metadata.entries();
                let right = match self.rewrite(*right) {
                    Ok(e) => e,
                    Err(err) => return Err(err),
                };
                proof {
                    lemma_extends_trans(md0, md1, self.metadata.entries());
                    lemma_prefix_of(md1, self.metadata.entries());
                }
                Ok(SExpr::Join(plan, Box::new(left), Box::new(right)))
            },
            SExpr::UnionAll(plan, left, right) => {
                let left = match self.rewrite(*left) {
                    Ok(e) => e,
                    Err(err) => return Err(err),
                };
                let ghost md1 = self.metadata.entries();
                let right = match self.rewrite(*right) {
                    Ok(e) => e,
                    Err(err) => return Err(err),
                };
                proof {
                    lemma_extends_trans(md0, md1, self.metadata.entries());
                    lemma_prefix_of(md1, self.metadata.entries());
                }
                Ok(SExpr::UnionAll(plan, Box::new(left), Box::new(right)))
            },
            SExpr::Limit(plan, child) => {
                let input = match self.rewrite(*child) {
                    Ok(e) => e,
                    Err(err) => return Err(err),
                };
                Ok(SExpr::Limit(plan, Box::new(input)))
            },
            SExpr::Sort(plan, child) => {
                let input = match self.rewrite(*child) {
                    Ok(e) => e,
                    Err(err) => return Err(err),
                };
                Ok(SExpr::Sort(plan, Box::new(input)))
            },
            SExpr::Scan(_) => Ok(s_expr),
            SExpr::DummyTableScan => Ok(s_expr),
        }
    }
}

/// Columns minted while rewriting are fresh. When the registry goes from
/// `before` to `after` (as `rewrite` ensures, by appending), an index `i`
/// minted on the way is no index of `before`, and it is neither produced by
/// nor an outer column of a tree whose columns were all registered in `before`.
pub proof fn lemma_minted_columns_fresh(
    before: Seq<(Seq<char>, DataType)>,
    after: Seq<(Seq<char>, DataType)>,
    tree: SExpr,
    i: usize,
)
    requires
        registry_extends(before, after),
        before.len() <= i < after.len(),
        forall|c: usize|
            crate::property::plan_outputs(tree, c) || crate::property::plan_outer(tree, c)
                ==> c < before.len(),
    ensures
        i >= before.len(),
        !crate::property::plan_outputs(tree, i),
        !crate::property::plan_outer(tree, i),
        after.subrange(0, before.len() as int) == before,
{
    assert(after.subrange(0, before.len() as int) =~= before);
}

} // verus!
