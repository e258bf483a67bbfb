//! What rewriting does, stated over the input: when it fails, how many joins
//! and derived columns each step adds, and the tree and scalar it returns.
use vstd::prelude::*;

use crate::plan::plan_subquery_free;
use crate::plan::SExpr;
use crate::plan::ScalarItem;
use crate::property::items_use;
use crate::property::plan_outer;
use crate::property::plan_outputs;
use crate::property::scalar_uses;
use crate::rewriter::is_subquery_replacement;
use crate::rewriter::is_uncorrelated_rewrite;
use crate::rewriter::uncorrelated_fails;
use crate::rewriter::UnnestResult;
use crate::scalar::scalar_subquery_free;
use crate::scalar::ComparisonOp;
use crate::scalar::Scalar;
use crate::scalar::SubqueryExpr;
use crate::scalar::SubqueryType;
use crate::types::DataType;
use crate::plan::JoinType;

verus! {

/// A registry's contents: (name, type) by index.
pub type Registry = Seq<(Seq<char>, DataType)>;

/// The first `n` entries of `md`.
pub open spec fn prefix(md: Registry, n: nat) -> Registry {
    md.subrange(0, n as int)
}

/// The subquery plan references a column it does not produce.
pub open spec fn is_correlated(p: SExpr) -> bool {
    exists|c: usize| plan_outer(p, c)
}

/// `p` is `a = b` between two column references of which exactly one is
/// produced by `x`: a correlation key.
pub open spec fn is_key(p: Scalar, x: SExpr) -> bool {
    match p {
        Scalar::ComparisonExpr(c) => c.op == ComparisonOp::Equal && match *c.left {
            Scalar::BoundColumnRef(a) => match *c.right {
                Scalar::BoundColumnRef(b) => plan_outputs(x, a.column.index) != plan_outputs(
                    x,
                    b.column.index,
                ),
                _ => false,
            },
            _ => false,
        },
        _ => false,
    }
}

/// The predicates of `preds` that are not correlation keys, in order.
pub open spec fn kept_preds(preds: Seq<Scalar>, x: SExpr) -> Seq<Scalar>
    decreases preds.len(),
{
    if preds.len() == 0 {
        preds
    } else if is_key(preds.last(), x) {
        kept_preds(preds.drop_last(), x)
    } else {
        kept_preds(preds.drop_last(), x).push(preds.last())
    }
}

/// The index a column reference binds to.
pub open spec fn column_index(s: Scalar) -> usize {
    match s {
        Scalar::BoundColumnRef(r) => r.column.index,
        _ => 0,
    }
}

/// The side of key `p` that `x` produces (`inner`) or not.
pub open spec fn key_side_of(p: Scalar, x: SExpr, inner: bool) -> Scalar {
    match p {
        Scalar::ComparisonExpr(c) => if plan_outputs(x, column_index(*c.left)) == inner {
            *c.left
        } else {
            *c.right
        },
        _ => p,
    }
}

/// The outer (`inner == false`) or inner sides of the correlation keys of
/// `preds`, in order.
pub open spec fn key_sides(preds: Seq<Scalar>, x: SExpr, inner: bool) -> Seq<Scalar>
    decreases preds.len(),
{
    if preds.len() == 0 {
        preds
    } else if is_key(preds.last(), x) {
        key_sides(preds.drop_last(), x, inner).push(key_side_of(preds.last(), x, inner))
    } else {
        key_sides(preds.drop_last(), x, inner)
    }
}

/// The group key that stands for inner key `s`.
pub open spec fn group_item_of(s: Scalar) -> ScalarItem {
    ScalarItem { scalar: s, index: column_index(s) }
}

/// Some predicate of `preds` is a correlation key over `x`.
pub open spec fn has_key(preds: Seq<Scalar>, x: SExpr) -> bool {
    exists|k: int| 0 <= k < preds.len() && #[trigger] is_key(preds[k], x)
}

/// Every column that a predicate other than a key references is produced by `x`.
pub open spec fn refs_bound(preds: Seq<Scalar>, x: SExpr) -> bool {
    forall|k: int, c: usize|
        0 <= k < preds.len() && !is_key(preds[k], x) && #[trigger] scalar_uses(preds[k], c)
            ==> plan_outputs(x, c)
}

/// A correlated subquery can be flattened: a scalar subquery without nested
/// subqueries, `Aggregate(no group keys) <- Filter(preds) <- x`, with at least
/// one correlation key, and every other reference of the predicates and
/// aggregates, and all of `x`, bound inside `x`.
pub open spec fn decorrelate_ok(q: SubqueryExpr) -> bool {
    q.typ == SubqueryType::Scalar && plan_subquery_free(*q.subquery) && match *q.subquery {
        SExpr::Aggregate(a, i) => a.group_items@.len() == 0 && match *i {
            SExpr::Filter(f, x) => has_key(f.predicates@, *x) && refs_bound(f.predicates@, *x)
                && (forall|c: usize|
                #[trigger] items_use(a.aggregate_functions@, c) ==> plan_outputs(*x, c)) && (forall|
                c: usize,
            | !#[trigger] plan_outer(*x, c)),
            _ => false,
        },
        _ => false,
    }
}

/// The subquery plan aggregates exactly one `count`.
pub open spec fn is_count_agg(q: SubqueryExpr) -> bool {
    match *q.subquery {
        SExpr::Aggregate(a, _) => a.aggregate_functions@.len() == 1 && match a.aggregate_functions@[0].scalar {
            Scalar::AggregateFunction(f) => f.func_name@ == "count"@,
            _ => false,
        },
        _ => false,
    }
}

/// `p1` is the flattening of the correlated subquery `q` against `left`: a
/// correlated single join of `left` with the aggregate now grouped by the
/// inner keys, over the kept predicates (no filter when none is kept).
pub open spec fn is_decorrelated(p1: SExpr, left: SExpr, q: SubqueryExpr) -> bool {
    match *q.subquery {
        SExpr::Aggregate(a, i) => match *i {
            SExpr::Filter(f, x) => {
                let kept = kept_preds(f.predicates@, *x);
                let outer = key_sides(f.predicates@, *x, false);
                let inner = key_sides(f.predicates@, *x, true);
                match p1 {
                    SExpr::Join(j, l, r) => *l == left && j.join_type == JoinType::Single
                        && j.from_correlated_subquery && j.marker_index is None
                        && j.non_equi_conditions@.len() == 0 && j.left_conditions@ == outer
                        && j.right_conditions@ == inner && match *r {
                        SExpr::Aggregate(a2, c2) => a2.aggregate_functions@ == a.aggregate_functions@
                            && a2.from_distinct == a.from_distinct && a2.mode == a.mode
                            && a2.group_items@ == inner.map_values(|k: Scalar| group_item_of(k))
                            && (if kept.len() == 0 {
                            *c2 == *x
                        } else {
                            match *c2 {
                                SExpr::Filter(f2, x2) => *x2 == *x && f2.is_having == f.is_having
                                    && f2.predicates@ == kept,
                                _ => false,
                            }
                        }),
                        _ => false,
                    },
                    _ => false,
                }
            },
            _ => false,
        },
        _ => false,
    }
}

/// Rewriting `s` fails.
pub open spec fn scalar_fails(s: Scalar) -> bool
    decreases s,
{
    match s {
        Scalar::AndExpr(e) => scalar_fails(*e.left) || scalar_fails(*e.right),
        Scalar::OrExpr(e) => scalar_fails(*e.left) || scalar_fails(*e.right),
        Scalar::NotExpr(e) => scalar_fails(*e.argument),
        Scalar::ComparisonExpr(e) => scalar_fails(*e.left) || scalar_fails(*e.right),
        Scalar::FunctionCall(f) => seq_fails(f.arguments@),
        Scalar::CastExpr(c) => scalar_fails(*c.argument),
        Scalar::SubqueryExpr(q) => if is_correlated(*q.subquery) {
            !decorrelate_ok(q)
        } else {
            plan_fails(*q.subquery) || uncorrelated_fails(q)
        },
        _ => false,
    }
}

pub open spec fn seq_fails(v: Seq<Scalar>) -> bool
    decreases v,
{
    if v.len() == 0 {
        false
    } else {
        seq_fails(v.drop_last()) || scalar_fails(v.last())
    }
}

pub open spec fn items_fails(v: Seq<ScalarItem>) -> bool
    decreases v,
{
    if v.len() == 0 {
        false
    } else {
        items_fails(v.drop_last()) || scalar_fails(v.last().scalar)
    }
}

/// Rewriting `e` fails: some subquery that the walk reaches cannot be unnested.
pub open spec fn plan_fails(e: SExpr) -> bool
    decreases e,
{
    match e {
        SExpr::EvalScalar(p, c) => plan_fails(*c) || items_fails(p.items@),
        SExpr::Filter(p, c) => plan_fails(*c) || seq_fails(p.predicates@),
        SExpr::Aggregate(p, c) => plan_fails(*c) || items_fails(p.group_items@) || items_fails(
            p.aggregate_functions@,
        ),
        SExpr::Limit(_, c) => plan_fails(*c),
        SExpr::Sort(_, c) => plan_fails(*c),
        SExpr::Join(_, l, r) => plan_fails(*l) || plan_fails(*r),
        SExpr::UnionAll(_, l, r) => plan_fails(*l) || plan_fails(*r),
        _ => false,
    }
}

/// Joins grafted onto the plan while rewriting `s`: one per subquery.
pub open spec fn scalar_count(s: Scalar) -> nat
    decreases s,
{
    match s {
        Scalar::AndExpr(e) => scalar_count(*e.left) + scalar_count(*e.right),
        Scalar::OrExpr(e) => scalar_count(*e.left) + scalar_count(*e.right),
        Scalar::NotExpr(e) => scalar_count(*e.argument),
        Scalar::ComparisonExpr(e) => scalar_count(*e.left) + scalar_count(*e.right),
        Scalar::FunctionCall(f) => seq_count(f.arguments@),
        Scalar::CastExpr(c) => scalar_count(*c.argument),
        Scalar::SubqueryExpr(_) => 1,
        _ => 0,
    }
}

pub open spec fn seq_count(v: Seq<Scalar>) -> nat
    decreases v,
{
    if v.len() == 0 {
        0
    } else {
        seq_count(v.drop_last()) + scalar_count(v.last())
    }
}

pub open spec fn items_count(v: Seq<ScalarItem>) -> nat
    decreases v,
{
    if v.len() == 0 {
        0
    } else {
        items_count(v.drop_last()) + scalar_count(v.last().scalar)
    }
}

/// Columns minted for the subquery `q` itself: the `count(*)` of an
/// uncorrelated `EXISTS`, the marker of an uncorrelated `ANY` without one.
pub open spec fn own_mints(q: SubqueryExpr) -> nat {
    if is_correlated(*q.subquery) {
        0
    } else {
        match q.typ {
            SubqueryType::Exists | SubqueryType::NotExists => 1,
            SubqueryType::Any => if q.projection_index is None {
                1nat
            } else {
                0nat
            },
            _ => 0,
        }
    }
}

/// Columns minted while rewriting `s`.
pub open spec fn scalar_mints(s: Scalar) -> nat
    decreases s,
{
    match s {
        Scalar::AndExpr(e) => scalar_mints(*e.left) + scalar_mints(*e.right),
        Scalar::OrExpr(e) => scalar_mints(*e.left) + scalar_mints(*e.right),
        Scalar::NotExpr(e) => scalar_mints(*e.argument),
        Scalar::ComparisonExpr(e) => scalar_mints(*e.left) + scalar_mints(*e.right),
        Scalar::FunctionCall(f) => seq_mints(f.arguments@),
        Scalar::CastExpr(c) => scalar_mints(*c.argument),
        Scalar::SubqueryExpr(q) => (if is_correlated(*q.subquery) {
            0
        } else {
            plan_mints(*q.subquery)
        }) + own_mints(q),
        _ => 0,
    }
}

pub open spec fn seq_mints(v: Seq<Scalar>) -> nat
    decreases v,
{
    if v.len() == 0 {
        0
    } else {
        seq_mints(v.drop_last()) + scalar_mints(v.last())
    }
}

pub open spec fn items_mints(v: Seq<ScalarItem>) -> nat
    decreases v,
{
    if v.len() == 0 {
        0
    } else {
        items_mints(v.drop_last()) + scalar_mints(v.last().scalar)
    }
}

/// Columns minted while rewriting `e`.
pub open spec fn plan_mints(e: SExpr) -> nat
    decreases e,
{
    match e {
        SExpr::EvalScalar(p, c) => plan_mints(*c) + items_mints(p.items@),
        SExpr::Filter(p, c) => plan_mints(*c) + seq_mints(p.predicates@),
        SExpr::Aggregate(p, c) => plan_mints(*c) + items_mints(p.group_items@) + items_mints(
            p.aggregate_functions@,
        ),
        SExpr::Limit(_, c) => plan_mints(*c),
        SExpr::Sort(_, c) => plan_mints(*c),
        SExpr::Join(_, l, r) => plan_mints(*l) + plan_mints(*r),
        SExpr::UnionAll(_, l, r) => plan_mints(*l) + plan_mints(*r),
        _ => 0,
    }
}

/// The plan `n` joins down the left spine of `p`: what `p` was before the
/// last `n` subqueries grafted their joins onto it.
pub open spec fn peel(p: SExpr, n: nat) -> SExpr
    decreases n,
{
    if n == 0 {
        p
    } else {
        match p {
            SExpr::Join(_, l, _) => peel(*l, (n - 1) as nat),
            _ => p,
        }
    }
}

/// `q` with its plan replaced by `p`.
pub open spec fn with_plan(q: SubqueryExpr, p: SExpr) -> SubqueryExpr {
    SubqueryExpr {
        typ: q.typ,
        subquery: Box::new(p),
        child_expr: q.child_expr,
        compare_op: q.compare_op,
        output_column: q.output_column,
        projection_index: q.projection_index,
        data_type: q.data_type,
    }
}

/// The rewritten subquery plan inside the join that unnested a subquery of kind `typ`.
pub open spec fn unnested_plan(p1: SExpr, typ: SubqueryType) -> SExpr {
    match p1 {
        SExpr::Join(_, _, r) => match typ {
            SubqueryType::Exists | SubqueryType::NotExists => match *r {
                SExpr::Filter(_, a) => match *a {
                    SExpr::Aggregate(_, l) => match *l {
                        SExpr::Limit(_, s) => *s,
                        _ => *r,
                    },
                    _ => *r,
                },
                _ => *r,
            },
            _ => *r,
        },
        _ => p1,
    }
}

/// How an uncorrelated subquery of kind `typ` is unnested, `md` being the
/// registry once its plan is rewritten.
pub open spec fn uncorrelated_result(q: SubqueryExpr, md: Registry) -> UnnestResult {
    match q.typ {
        SubqueryType::Exists | SubqueryType::NotExists => UnnestResult::SimpleJoin,
        SubqueryType::Any => UnnestResult::MarkJoin {
            marker_index: match q.projection_index {
                Some(i) => i,
                None => md.len() as usize,
            },
        },
        _ => UnnestResult::SingleJoin,
    }
}

/// Rewriting subquery `q` against `p0`, with registry `md0`, gives the value
/// `out`, the plan `p1` and registry `md1`.
pub open spec fn subquery_rel(
    q: SubqueryExpr,
    p0: SExpr,
    md0: Registry,
    dv: Map<usize, usize>,
    out: Scalar,
    p1: SExpr,
    md1: Registry,
) -> bool
    decreases q,
{
    if is_correlated(*q.subquery) {
        md1 == md0 && is_decorrelated(p1, p0, q) && is_subquery_replacement(
            out,
            q.typ,
            q.output_column,
            q.data_type,
            UnnestResult::SingleJoin,
            is_count_agg(q),
            dv,
        )
    } else {
        let mda = prefix(md1, md0.len() + plan_mints(*q.subquery));
        let rq = unnested_plan(p1, q.typ);
        let res = uncorrelated_result(q, mda);
        plan_rel(*q.subquery, md0, dv, rq, mda) && is_uncorrelated_rewrite(
            p1,
            res,
            p0,
            with_plan(q, rq),
            mda,
            md1,
        ) && is_subquery_replacement(out, q.typ, q.output_column, q.data_type, res, false, dv)
    }
}

/// Rewriting `s` against plan `p0`, registry `md0`, gives `out`, `p1`, `md1`:
/// subquery-free scalars and aggregates stay; composite scalars keep their
/// kind, operator and types, their children rewritten left to right, each
/// against the plan the previous one grew; a subquery is unnested.
pub open spec fn scalar_rel(
    s: Scalar,
    p0: SExpr,
    md0: Registry,
    dv: Map<usize, usize>,
    out: Scalar,
    p1: SExpr,
    md1: Registry,
) -> bool
    decreases s,
{
    if scalar_subquery_free(s) {
        out == s && p1 == p0 && md1 == md0
    } else {
        match s {
            Scalar::AndExpr(e) => match out {
                Scalar::AndExpr(o) => {
                    let pm = peel(p1, scalar_count(*e.right));
                    let mm = prefix(md1, md0.len() + scalar_mints(*e.left));
                    o.return_type == e.return_type && scalar_rel(*e.left, p0, md0, dv, *o.left, pm, mm)
                        && scalar_rel(*e.right, pm, mm, dv, *o.right, p1, md1)
                },
                _ => false,
            },
            Scalar::OrExpr(e) => match out {
                Scalar::OrExpr(o) => {
                    let pm = peel(p1, scalar_count(*e.right));
                    let mm = prefix(md1, md0.len() + scalar_mints(*e.left));
                    o.return_type == e.return_type && scalar_rel(*e.left, p0, md0, dv, *o.left, pm, mm)
                        && scalar_rel(*e.right, pm, mm, dv, *o.right, p1, md1)
                },
                _ => false,
            },
            Scalar::ComparisonExpr(e) => match out {
                Scalar::ComparisonExpr(o) => {
                    let pm = peel(p1, scalar_count(*e.right));
                    let mm = prefix(md1, md0.len() + scalar_mints(*e.left));
                    o.op == e.op && o.return_type == e.return_type && scalar_rel(
                        *e.left,
                        p0,
                        md0,
                        dv,
                        *o.left,
                        pm,
                        mm,
                    ) && scalar_rel(*e.right, pm, mm, dv, *o.right, p1, md1)
                },
                _ => false,
            },
            Scalar::NotExpr(e) => match out {
                Scalar::NotExpr(o) => o.return_type == e.return_type && scalar_rel(
                    *e.argument,
                    p0,
                    md0,
                    dv,
                    *o.argument,
                    p1,
                    md1,
                ),
                _ => false,
            },
            Scalar::CastExpr(e) => match out {
                Scalar::CastExpr(o) => o.from_type == e.from_type && o.target_type == e.target_type
                    && scalar_rel(*e.argument, p0, md0, dv, *o.argument, p1, md1),
                _ => false,
            },
            Scalar::FunctionCall(f) => match out {
                Scalar::FunctionCall(g) => g.func_name == f.func_name && g.return_type
                    == f.return_type && seq_rel(f.arguments@, p0, md0, dv, g.arguments@, p1, md1),
                _ => false,
            },
            Scalar::SubqueryExpr(q) => subquery_rel(q, p0, md0, dv, out, p1, md1),
            _ => out == s && p1 == p0 && md1 == md0,
        }
    }
}

/// The scalars of `v` rewritten in order, the plan threaded through them.
pub open spec fn seq_rel(
    v: Seq<Scalar>,
    p0: SExpr,
    md0: Registry,
    dv: Map<usize, usize>,
    out: Seq<Scalar>,
    p1: SExpr,
    md1: Registry,
) -> bool
    decreases v,
{
    if v.len() == 0 {
        out.len() == 0 && p1 == p0 && md1 == md0
    } else {
        let pm = peel(p1, scalar_count(v.last()));
        let mm = prefix(md1, md0.len() + seq_mints(v.drop_last()));
        out.len() == v.len() && seq_rel(v.drop_last(), p0, md0, dv, out.drop_last(), pm, mm)
            && scalar_rel(v.last(), pm, mm, dv, out.last(), p1, md1)
    }
}

/// The items of `v` rewritten in order, indices kept, the plan threaded.
pub open spec fn items_rel(
    v: Seq<ScalarItem>,
    p0: SExpr,
    md0: Registry,
    dv: Map<usize, usize>,
    out: Seq<ScalarItem>,
    p1: SExpr,
    md1: Registry,
) -> bool
    decreases v,
{
    if v.len() == 0 {
        out.len() == 0 && p1 == p0 && md1 == md0
    } else {
        let pm = peel(p1, scalar_count(v.last().scalar));
        let mm = prefix(md1, md0.len() + items_mints(v.drop_last()));
        out.len() == v.len() && out.last().index == v.last().index && items_rel(
            v.drop_last(),
            p0,
            md0,
            dv,
            out.drop_last(),
            pm,
            mm,
        ) && scalar_rel(v.last().scalar, pm, mm, dv, out.last().scalar, p1, md1)
    }
}

/// Rewriting `e` with registry `md0` gives `out` and `md1`: a subquery-free
/// plan stays; otherwise the root keeps its kind, joins, unions, limits and
/// sorts keep their payload and get their inputs rewritten apart, left
/// first; operators with scalars rewrite their input, then their scalars in
/// order (group keys before aggregates), keeping indices and flags.
pub open spec fn plan_rel(e: SExpr, md0: Registry, dv: Map<usize, usize>, out: SExpr, md1: Registry) -> bool
    decreases e,
{
    if plan_subquery_free(e) {
        out == e && md1 == md0
    } else {
        match e {
            SExpr::EvalScalar(p, c) => match out {
                SExpr::EvalScalar(p2, c2) => {
                    let cm = prefix(md1, md0.len() + plan_mints(*c));
                    let cc = peel(*c2, items_count(p.items@));
                    plan_rel(*c, md0, dv, cc, cm) && items_rel(p.items@, cc, cm, dv, p2.items@, *c2, md1)
                },
                _ => false,
            },
            SExpr::Filter(p, c) => match out {
                SExpr::Filter(p2, c2) => {
                    let cm = prefix(md1, md0.len() + plan_mints(*c));
                    let cc = peel(*c2, seq_count(p.predicates@));
                    p2.is_having == p.is_having && plan_rel(*c, md0, dv, cc, cm) && seq_rel(
                        p.predicates@,
                        cc,
                        cm,
                        dv,
                        p2.predicates@,
                        *c2,
                        md1,
                    )
                },
                _ => false,
            },
            SExpr::Aggregate(p, c) => match out {
                SExpr::Aggregate(p2, c2) => {
                    let cm = prefix(md1, md0.len() + plan_mints(*c));
                    let gm = prefix(md1, md0.len() + plan_mints(*c) + items_mints(p.group_items@),
                    );
                    let mid = peel(*c2, items_count(p.aggregate_functions@));
                    let cc = peel(mid, items_count(p.group_items@));
                    p2.from_distinct == p.from_distinct && p2.mode == p.mode && plan_rel(
                        *c,
                        md0,
                        dv,
                        cc,
                        cm,
                    ) && items_rel(p.group_items@, cc, cm, dv, p2.group_items@, mid, gm)
                        && items_rel(
                        p.aggregate_functions@,
                        mid,
                        gm,
                        dv,
                        p2.aggregate_functions@,
                        *c2,
                        md1,
                    )
                },
                _ => false,
            },
            SExpr::Limit(l, c) => match out {
                SExpr::Limit(l2, c2) => l2 == l && plan_rel(*c, md0, dv, *c2, md1),
                _ => false,
            },
            SExpr::Sort(so, c) => match out {
                SExpr::Sort(so2, c2) => so2 == so && plan_rel(*c, md0, dv, *c2, md1),
                _ => false,
            },
            SExpr::Join(j, l, r) => match out {
                SExpr::Join(j2, l2, r2) => {
                    let lm = prefix(md1, md0.len() + plan_mints(*l));
                    j2 == j && plan_rel(*l, md0, dv, *l2, lm) && plan_rel(*r, lm, dv, *r2, md1)
                },
                _ => false,
            },
            SExpr::UnionAll(u, l, r) => match out {
                SExpr::UnionAll(u2, l2, r2) => {
                    let lm = prefix(md1, md0.len() + plan_mints(*l));
                    u2 == u && plan_rel(*l, md0, dv, *l2, lm) && plan_rel(*r, lm, dv, *r2, md1)
                },
                _ => false,
            },
            _ => out == e && md1 == md0,
        }
    }
}

} // verus!

verus! {

pub proof fn lemma_peel_add(p: SExpr, a: nat, b: nat)
    ensures
        peel(peel(p, a), b) == peel(p, a + b),
    decreases a,
{
    if a > 0 {
        if let SExpr::Join(_, l, _) = p {
            lemma_peel_add(*l, (a - 1) as nat, b);
            assert((a - 1) as nat + b == (a + b - 1) as nat);
        } else {
            if b > 0 {
                assert(peel(p, b) == p);
            }
        }
    }
}

/// A registry that extends `a` starts with `a`.
pub proof fn lemma_prefix_of(a: Registry, b: Registry)
    requires
        crate::rewriter::registry_extends(a, b),
    ensures
        prefix(b, a.len()) == a,
{
    assert(prefix(b, a.len()) =~= a);
}

/// A scalar without subqueries grafts nothing, mints nothing and cannot fail.
pub proof fn lemma_scalar_free_inert(s: Scalar)
    requires
        scalar_subquery_free(s),
    ensures
        scalar_count(s) == 0,
        scalar_mints(s) == 0,
        !scalar_fails(s),
    decreases s,
{
    match s {
        Scalar::AndExpr(e) => {
            lemma_scalar_free_inert(*e.left);
            lemma_scalar_free_inert(*e.right);
        },
        Scalar::OrExpr(e) => {
            lemma_scalar_free_inert(*e.left);
            lemma_scalar_free_inert(*e.right);
        },
        Scalar::NotExpr(e) => lemma_scalar_free_inert(*e.argument),
        Scalar::ComparisonExpr(e) => {
            lemma_scalar_free_inert(*e.left);
            lemma_scalar_free_inert(*e.right);
        },
        Scalar::FunctionCall(f) => lemma_seq_free_inert(f.arguments@),
        Scalar::CastExpr(c) => lemma_scalar_free_inert(*c.argument),
        _ => {},
    }
}

pub proof fn lemma_seq_free_inert(v: Seq<Scalar>)
    requires
        crate::scalar::all_subquery_free(v),
    ensures
        seq_count(v) == 0,
        seq_mints(v) == 0,
        !seq_fails(v),
    decreases v,
{
    if v.len() > 0 {
        lemma_seq_free_inert(v.drop_last());
        lemma_scalar_free_inert(v.last());
    }
}

pub proof fn lemma_items_free_inert(v: Seq<ScalarItem>)
    requires
        crate::scalar::scalars_subquery_free(crate::plan::item_scalars(v)),
    ensures
        items_count(v) == 0,
        items_mints(v) == 0,
        !items_fails(v),
    decreases v.len(),
{
    if v.len() > 0 {
        let w = v.drop_last();
        assert forall|i: int| 0 <= i < w.len() implies #[trigger] scalar_subquery_free(
            crate::plan::item_scalars(w)[i],
        ) by {
            assert(crate::plan::item_scalars(w)[i] == crate::plan::item_scalars(v)[i]);
        }
        lemma_items_free_inert(w);
        assert(crate::plan::item_scalars(v)[v.len() - 1] == v.last().scalar);
        lemma_scalar_free_inert(v.last().scalar);
    }
}

/// A plan without subqueries mints nothing and cannot fail.
pub proof fn lemma_plan_free_inert(e: SExpr)
    requires
        plan_subquery_free(e),
    ensures
        plan_mints(e) == 0,
        !plan_fails(e),
    decreases e,
{
    match e {
        SExpr::EvalScalar(p, c) => {
            lemma_plan_free_inert(*c);
            lemma_items_free_inert(p.items@);
        },
        SExpr::Filter(p, c) => {
            lemma_plan_free_inert(*c);
            crate::scalar::lemma_all_subquery_free(p.predicates@);
            lemma_seq_free_inert(p.predicates@);
        },
        SExpr::Aggregate(p, c) => {
            lemma_plan_free_inert(*c);
            lemma_items_free_inert(p.group_items@);
            lemma_items_free_inert(p.aggregate_functions@);
        },
        SExpr::Limit(_, c) => lemma_plan_free_inert(*c),
        SExpr::Sort(_, c) => lemma_plan_free_inert(*c),
        SExpr::Join(_, l, r) => {
            lemma_plan_free_inert(*l);
            lemma_plan_free_inert(*r);
        },
        SExpr::UnionAll(_, l, r) => {
            lemma_plan_free_inert(*l);
            lemma_plan_free_inert(*r);
        },
        _ => {},
    }
}

/// A failing prefix makes the whole sequence fail.
pub proof fn lemma_seq_fails_prefix(v: Seq<Scalar>, j: int)
    requires
        0 <= j <= v.len(),
        seq_fails(v.subrange(0, j)),
    ensures
        seq_fails(v),
    decreases v.len(),
{
    if j < v.len() {
        assert(v.drop_last().subrange(0, j) =~= v.subrange(0, j));
        lemma_seq_fails_prefix(v.drop_last(), j);
    } else {
        assert(v.subrange(0, j) =~= v);
    }
}

pub proof fn lemma_items_fails_prefix(v: Seq<ScalarItem>, j: int)
    requires
        0 <= j <= v.len(),
        items_fails(v.subrange(0, j)),
    ensures
        items_fails(v),
    decreases v.len(),
{
    if j < v.len() {
        assert(v.drop_last().subrange(0, j) =~= v.subrange(0, j));
        lemma_items_fails_prefix(v.drop_last(), j);
    } else {
        assert(v.subrange(0, j) =~= v);
    }
}

} // verus!
