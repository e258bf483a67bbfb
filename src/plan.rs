//! Relational operators and the plan tree that they form.
use vstd::prelude::*;

use crate::scalar::Scalar;
use crate::scalar::scalar_subquery_free;
use crate::scalar::scalars_subquery_free;
use crate::scalar::all_subquery_free;

verus! {

/// A table scan producing the listed columns.
#[derive(Clone, Debug)]
pub struct Scan {
    pub table_index: usize,
    pub columns: Vec<usize>,
}

/// A scalar computed into the column `index`.
#[derive(Debug)]
pub struct ScalarItem {
    pub scalar: Scalar,
    pub index: usize,
}

#[derive(Debug)]
pub struct EvalScalar {
    pub items: Vec<ScalarItem>,
}

#[derive(Debug)]
pub struct Filter {
    pub predicates: Vec<Scalar>,
    pub is_having: bool,
}

#[derive(Clone, Copy, Debug, PartialEq, Eq, Structural)]
pub enum AggregateMode {
    Partial,
    Final,
    Initial,
}

#[derive(Debug)]
pub struct Aggregate {
    pub group_items: Vec<ScalarItem>,
    pub aggregate_functions: Vec<ScalarItem>,
    pub from_distinct: bool,
    pub mode: AggregateMode,
}

#[derive(Clone, Copy, Debug, PartialEq, Eq, Structural)]
pub enum JoinType {
    Inner,
    Left,
    Right,
    Full,
    Semi,
    Anti,
    Cross,
    LeftMark,
    RightMark,
    Single,
}

#[derive(Debug)]
pub struct Join {
    pub left_conditions: Vec<Scalar>,
    pub right_conditions: Vec<Scalar>,
    pub non_equi_conditions: Vec<Scalar>,
    pub join_type: JoinType,
    pub marker_index: Option<usize>,
    pub from_correlated_subquery: bool,
}

#[derive(Clone, Copy, Debug, PartialEq, Eq, Structural)]
pub struct Limit {
    pub limit: Option<usize>,
    pub offset: usize,
}

#[derive(Clone, Copy, Debug, PartialEq, Eq, Structural)]
pub struct SortItem {
    pub index: usize,
    pub asc: bool,
    pub nulls_first: bool,
}

#[derive(Clone, Debug)]
pub struct Sort {
    pub items: Vec<SortItem>,
    pub limit: Option<usize>,
}

/// Pairs of (left, right) columns that a union lines up.
#[derive(Clone, Debug)]
pub struct UnionAll {
    pub pairs: Vec<(usize, usize)>,
}

/// A plan tree. Each node owns its children.
#[derive(Debug)]
pub enum SExpr {
    Scan(Scan),
    DummyTableScan,
    EvalScalar(EvalScalar, Box<SExpr>),
    Filter(Filter, Box<SExpr>),
    Aggregate(Aggregate, Box<SExpr>),
    Limit(Limit, Box<SExpr>),
    Sort(Sort, Box<SExpr>),
    Join(Join, Box<SExpr>, Box<SExpr>),
    UnionAll(UnionAll, Box<SExpr>, Box<SExpr>),
}

/// The scalars of a list of items.
pub open spec fn item_scalars(items: Seq<ScalarItem>) -> Seq<Scalar> {
    items.map_values(|it: ScalarItem| it.scalar)
}

/// No operator of the tree carries a subquery in its payload.
pub open spec fn plan_subquery_free(e: SExpr) -> bool
    decreases e,
{
    match e {
        SExpr::Scan(_) => true,
        SExpr::DummyTableScan => true,
        SExpr::EvalScalar(p, c) => scalars_subquery_free(item_scalars(p.items@))
            && plan_subquery_free(*c),
        SExpr::Filter(p, c) => scalars_subquery_free(p.predicates@) && plan_subquery_free(*c),
        SExpr::Aggregate(p, c) => scalars_subquery_free(item_scalars(p.group_items@))
            && scalars_subquery_free(item_scalars(p.aggregate_functions@)) && plan_subquery_free(
            *c,
        ),
        SExpr::Limit(_, c) => plan_subquery_free(*c),
        SExpr::Sort(_, c) => plan_subquery_free(*c),
        SExpr::Join(j, l, r) => join_subquery_free(j) && plan_subquery_free(*l)
            && plan_subquery_free(*r),
        SExpr::UnionAll(_, l, r) => plan_subquery_free(*l) && plan_subquery_free(*r),
    }
}

/// The join's conditions hold no subquery.
pub open spec fn join_subquery_free(j: Join) -> bool {
    scalars_subquery_free(j.left_conditions@) && scalars_subquery_free(j.right_conditions@)
        && scalars_subquery_free(j.non_equi_conditions@)
}

} // verus!

verus! {

/// Subqueries stand only where the rewriter looks for them: in no join
/// condition and in no aggregate argument, here or in the plan of a nested
/// subquery.
pub open spec fn plan_rewritable(e: SExpr) -> bool
    decreases e,
{
    match e {
        SExpr::Scan(_) => true,
        SExpr::DummyTableScan => true,
        SExpr::EvalScalar(p, c) => items_rewritable(p.items@) && plan_rewritable(*c),
        SExpr::Filter(p, c) => seq_rewritable(p.predicates@) && plan_rewritable(*c),
        SExpr::Aggregate(p, c) => items_rewritable(p.group_items@) && items_rewritable(
            p.aggregate_functions@,
        ) && plan_rewritable(*c),
        SExpr::Limit(_, c) => plan_rewritable(*c),
        SExpr::Sort(_, c) => plan_rewritable(*c),
        SExpr::Join(j, l, r) => join_subquery_free(j) && plan_rewritable(*l) && plan_rewritable(
            *r,
        ),
        SExpr::UnionAll(_, l, r) => plan_rewritable(*l) && plan_rewritable(*r),
    }
}

/// Subqueries inside `s` stand only where the rewriter looks for them.
pub open spec fn scalar_rewritable(s: Scalar) -> bool
    decreases s,
{
    match s {
        Scalar::BoundColumnRef(_) => true,
        Scalar::ConstantExpr(_) => true,
        Scalar::AndExpr(e) => scalar_rewritable(*e.left) && scalar_rewritable(*e.right),
        Scalar::OrExpr(e) => scalar_rewritable(*e.left) && scalar_rewritable(*e.right),
        Scalar::NotExpr(e) => scalar_rewritable(*e.argument),
        Scalar::ComparisonExpr(e) => scalar_rewritable(*e.left) && scalar_rewritable(*e.right),
        Scalar::AggregateFunction(f) => all_subquery_free(f.args@),
        Scalar::FunctionCall(f) => seq_rewritable(f.arguments@),
        Scalar::CastExpr(c) => scalar_rewritable(*c.argument),
        Scalar::SubqueryExpr(q) => plan_rewritable(*q.subquery),
    }
}

pub open spec fn seq_rewritable(v: Seq<Scalar>) -> bool
    decreases v,
{
    if v.len() == 0 {
        true
    } else {
        seq_rewritable(v.drop_last()) && scalar_rewritable(v.last())
    }
}

pub open spec fn items_rewritable(v: Seq<ScalarItem>) -> bool
    decreases v,
{
    if v.len() == 0 {
        true
    } else {
        items_rewritable(v.drop_last()) && scalar_rewritable(v.last().scalar)
    }
}

} // verus!

verus! {

fn items_are_subquery_free(items: &Vec<ScalarItem>) -> (r: bool)
    ensures
        r == scalars_subquery_free(item_scalars(items@)),
{
    let mut i: usize = 0;
    while i < items.len()
        invariant
            0 <= i <= items.len(),
            forall|k: int| 0 <= k < i ==> #[trigger] scalar_subquery_free(items@[k].scalar),
        decreases items.len() - i,
    {
        if !crate::scalar::scalar_is_subquery_free(&items[i].scalar) {
            assert(item_scalars(items@)[i as int] == items@[i as int].scalar);
            return false;
        }
        i += 1;
    }
    assert forall|k: int| 0 <= k < item_scalars(items@).len() implies #[trigger]
        scalar_subquery_free(item_scalars(items@)[k]) by {
        assert(item_scalars(items@)[k] == items@[k].scalar);
    }
    true
}

fn seq_is_subquery_free(v: &Vec<Scalar>) -> (r: bool)
    ensures
        r == scalars_subquery_free(v@),
{
    let r = crate::scalar::all_are_subquery_free(v);
    proof {
        crate::scalar::lemma_all_subquery_free(v@);
    }
    r
}

/// Whether no operator of `e` carries a subquery in its payload.
pub fn plan_is_subquery_free(e: &SExpr) -> (r: bool)
    ensures
        r == plan_subquery_free(*e),
    decreases e,
{
    match e {
        SExpr::Scan(_) => true,
        SExpr::DummyTableScan => true,
        SExpr::EvalScalar(p, c) => items_are_subquery_free(&p.items) && plan_is_subquery_free(c),
        SExpr::Filter(p, c) => seq_is_subquery_free(&p.predicates) && plan_is_subquery_free(c),
        SExpr::Aggregate(p, c) => items_are_subquery_free(&p.group_items)
            && items_are_subquery_free(&p.aggregate_functions) && plan_is_subquery_free(c),
        SExpr::Limit(_, c) => plan_is_subquery_free(c),
        SExpr::Sort(_, c) => plan_is_subquery_free(c),
        SExpr::Join(j, l, r) => seq_is_subquery_free(&j.left_conditions) && seq_is_subquery_free(
            &j.right_conditions,
        ) && seq_is_subquery_free(&j.non_equi_conditions) && plan_is_subquery_free(l)
            && plan_is_subquery_free(r),
        SExpr::UnionAll(_, l, r) => plan_is_subquery_free(l) && plan_is_subquery_free(r),
    }
}

pub proof fn lemma_seq_rewritable(v: Seq<Scalar>)
    ensures
        seq_rewritable(v) ==> forall|i: int| 0 <= i < v.len() ==> #[trigger] scalar_rewritable(v[i]),
    decreases v.len(),
{
    if v.len() > 0 {
        lemma_seq_rewritable(v.drop_last());
        assert(forall|i: int| 0 <= i < v.len() - 1 ==> v.drop_last()[i] == v[i]);
    }
}

pub proof fn lemma_items_rewritable(v: Seq<ScalarItem>)
    ensures
        items_rewritable(v) ==> forall|i: int|
            0 <= i < v.len() ==> #[trigger] scalar_rewritable(v[i].scalar),
    decreases v.len(),
{
    if v.len() > 0 {
        lemma_items_rewritable(v.drop_last());
        assert(forall|i: int| 0 <= i < v.len() - 1 ==> v.drop_last()[i] == v[i]);
    }
}

} // verus!
