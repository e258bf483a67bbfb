//! Relational properties of plan trees: the columns a subtree produces and
//! the outer columns it references without producing them.
use vstd::prelude::*;

use crate::plan::SExpr;
use crate::plan::ScalarItem;
use crate::scalar::Scalar;

verus! {

/// The scalar references column `c`, directly or as an outer column of a
/// nested subquery.
pub open spec fn scalar_uses(s: Scalar, c: usize) -> bool
    decreases s,
{
    match s {
        Scalar::BoundColumnRef(r) => r.column.index == c,
        Scalar::ConstantExpr(_) => false,
        Scalar::AndExpr(e) => scalar_uses(*e.left, c) || scalar_uses(*e.right, c),
        Scalar::OrExpr(e) => scalar_uses(*e.left, c) || scalar_uses(*e.right, c),
        Scalar::NotExpr(e) => scalar_uses(*e.argument, c),
        Scalar::ComparisonExpr(e) => scalar_uses(*e.left, c) || scalar_uses(*e.right, c),
        Scalar::AggregateFunction(f) => seq_uses(f.args@, c),
        Scalar::FunctionCall(f) => seq_uses(f.arguments@, c),
        Scalar::CastExpr(e) => scalar_uses(*e.argument, c),
        Scalar::SubqueryExpr(q) => (match q.child_expr {
            Some(ce) => scalar_uses(*ce, c),
            None => false,
        }) || plan_outer(*q.subquery, c),
    }
}

/// Some scalar of the sequence references `c`.
pub open spec fn seq_uses(v: Seq<Scalar>, c: usize) -> bool
    decreases v,
{
    if v.len() == 0 {
        false
    } else {
        seq_uses(v.drop_last(), c) || scalar_uses(v.last(), c)
    }
}

/// The scalar of some item of the sequence references `c`.
pub open spec fn items_use(v: Seq<ScalarItem>, c: usize) -> bool
    decreases v,
{
    if v.len() == 0 {
        false
    } else {
        items_use(v.drop_last(), c) || scalar_uses(v.last().scalar, c)
    }
}

/// The subtree produces column `c`.
pub open spec fn plan_outputs(e: SExpr, c: usize) -> bool
    decreases e,
{
    match e {
        SExpr::Scan(s) => s.columns@.contains(c),
        SExpr::DummyTableScan => false,
        SExpr::EvalScalar(p, ch) => plan_outputs(*ch, c) || exists|i: int|
            0 <= i < p.items@.len() && #[trigger] p.items@[i].index == c,
        SExpr::Filter(_, ch) => plan_outputs(*ch, c),
        SExpr::Aggregate(p, _) => (exists|i: int|
            0 <= i < p.group_items@.len() && #[trigger] p.group_items@[i].index == c) || (exists|
            i: int,
        | 0 <= i < p.aggregate_functions@.len() && #[trigger] p.aggregate_functions@[i].index
            == c),
        SExpr::Limit(_, ch) => plan_outputs(*ch, c),
        SExpr::Sort(_, ch) => plan_outputs(*ch, c),
        SExpr::Join(j, l, r) => plan_outputs(*l, c) || plan_outputs(*r, c) || j.marker_index
            == Some(c),
        SExpr::UnionAll(_, l, _) => plan_outputs(*l, c),
    }
}


/// Column `c` is an outer column of the subtree: referenced in it, and not
/// produced by the input of the operator that references it.
pub open spec fn plan_outer(e: SExpr, c: usize) -> bool
    decreases e,
{
    match e {
        SExpr::Scan(_) => false,
        SExpr::DummyTableScan => false,
        SExpr::EvalScalar(p, ch) => (items_use(p.items@, c) && !plan_outputs(*ch, c))
            || plan_outer(*ch, c),
        SExpr::Filter(p, ch) => (seq_uses(p.predicates@, c) && !plan_outputs(*ch, c))
            || plan_outer(*ch, c),
        SExpr::Aggregate(p, ch) => ((items_use(p.group_items@, c) || items_use(
            p.aggregate_functions@,
            c,
        )) && !plan_outputs(*ch, c)) || plan_outer(*ch, c),
        SExpr::Limit(_, ch) => plan_outer(*ch, c),
        SExpr::Sort(p, ch) => ((exists|i: int|
            0 <= i < p.items@.len() && #[trigger] p.items@[i].index == c) && !plan_outputs(
            *ch,
            c,
        )) || plan_outer(*ch, c),
        SExpr::Join(j, l, r) => ((seq_uses(j.left_conditions@, c) || seq_uses(
            j.right_conditions@,
            c,
        ) || seq_uses(j.non_equi_conditions@, c)) && !plan_outputs(*l, c) && !plan_outputs(
            *r,
            c,
        )) || plan_outer(*l, c) || plan_outer(*r, c),
        SExpr::UnionAll(_, l, r) => plan_outer(*l, c) || plan_outer(*r, c),
    }
}

} // verus!

verus! {

/// After a push, the sequence contains exactly the old elements and the new one.
proof fn lemma_push_contains(s: Seq<usize>, x: usize)
    ensures
        forall|c: usize| #[trigger] s.push(x).contains(c) <==> (s.contains(c) || c == x),
{
    assert forall|c: usize| #[trigger] s.push(x).contains(c) <==> (s.contains(c) || c == x) by {
        if s.contains(c) {
            let k = choose|k: int| 0 <= k < s.len() && s[k] == c;
            assert(s.push(x)[k] == c);
        }
        if c == x {
            assert(s.push(x)[s.len() as int] == c);
        }
        if s.push(x).contains(c) && c != x {
            let k = choose|k: int| 0 <= k < s.len() + 1 && s.push(x)[k] == c;
            assert(s[k] == c);
        }
    }
}

/// Whether `c` occurs in `v`.
pub fn contains_index(v: &Vec<usize>, c: usize) -> (r: bool)
    ensures
        r == v@.contains(c),
{
    let mut i: usize = 0;
    while i < v.len()
        invariant
            0 <= i <= v.len(),
            forall|k: int| 0 <= k < i ==> v@[k] != c,
        decreases v.len() - i,
    {
        if v[i] == c {
            return true;
        }
        i += 1;
    }
    false
}

/// Adds to `out` the columns that `s` references.
fn collect_scalar_uses(s: &Scalar, out: &mut Vec<usize>)
    ensures
        forall|c: usize| #[trigger]
            final(out)@.contains(c) <==> (old(out)@.contains(c) || scalar_uses(*s, c)),
    decreases s,
{
    match s {
        Scalar::BoundColumnRef(r) => {
            proof {
                lemma_push_contains(out@, r.column.index);
            }
            out.push(r.column.index);
        },
        Scalar::ConstantExpr(_) => {},
        Scalar::AndExpr(e) => {
            collect_scalar_uses(&e.left, out);
            collect_scalar_uses(&e.right, out);
        },
        Scalar::OrExpr(e) => {
            collect_scalar_uses(&e.left, out);
            collect_scalar_uses(&e.right, out);
        },
        Scalar::NotExpr(e) => {
            collect_scalar_uses(&e.argument, out);
        },
        Scalar::ComparisonExpr(e) => {
            collect_scalar_uses(&e.left, out);
            collect_scalar_uses(&e.right, out);
        },
        Scalar::AggregateFunction(f) => {
            collect_seq_uses(&f.args, out);
        },
        Scalar::FunctionCall(f) => {
            collect_seq_uses(&f.arguments, out);
        },
        Scalar::CastExpr(e) => {
            collect_scalar_uses(&e.argument, out);
        },
        Scalar::SubqueryExpr(q) => {
            match &q.child_expr {
                Some(ce) => collect_scalar_uses(ce, out),
                None => {},
            }
            collect_outer(&q.subquery, out);
        },
    }
}

/// Adds to `out` the columns that the scalars of `v` reference.
fn collect_seq_uses(v: &Vec<Scalar>, out: &mut Vec<usize>)
    ensures
        forall|c: usize| #[trigger]
            final(out)@.contains(c) <==> (old(out)@.contains(c) || seq_uses(v@, c)),
    decreases v,
{
    let ghost o = out@;
    let mut i: usize = 0;
    while i < v.len()
        invariant
            0 <= i <= v.len(),
            forall|c: usize| #[trigger]
                out@.contains(c) <==> (o.contains(c) || seq_uses(v@.subrange(0, i as int), c)),
        decreases v.len() - i,
    {
        proof {
            vstd::std_specs::vec::axiom_vec_index_decreases(*v, i as int);
        }
        collect_scalar_uses(&v[i], out);
        assert(v@.subrange(0, i + 1).drop_last() =~= v@.subrange(0, i as int));
        i += 1;
    }
    assert(v@.subrange(0, v.len() as int) =~= v@);
}

/// Adds to `out` the columns that the scalars of `items` reference.
fn collect_items_uses(items: &Vec<ScalarItem>, out: &mut Vec<usize>)
    ensures
        forall|c: usize| #[trigger]
            final(out)@.contains(c) <==> (old(out)@.contains(c) || items_use(items@, c)),
    decreases items,
{
    let ghost o = out@;
    let mut i: usize = 0;
    while i < items.len()
        invariant
            0 <= i <= items.len(),
            forall|c: usize| #[trigger]
                out@.contains(c) <==> (o.contains(c) || items_use(items@.subrange(0, i as int), c)),
        decreases items.len() - i,
    {
        proof {
            vstd::std_specs::vec::axiom_vec_index_decreases(*items, i as int);
        }
        collect_scalar_uses(&items[i].scalar, out);
        assert(items@.subrange(0, i + 1).drop_last() =~= items@.subrange(0, i as int));
        i += 1;
    }
    assert(items@.subrange(0, items.len() as int) =~= items@);
}

/// Adds the elements of `v` to `out`.
fn push_all(v: &Vec<usize>, out: &mut Vec<usize>)
    ensures
        forall|c: usize| #[trigger]
            final(out)@.contains(c) <==> (old(out)@.contains(c) || v@.contains(c)),
{
    let ghost o = out@;
    let mut i: usize = 0;
    while i < v.len()
        invariant
            0 <= i <= v.len(),
            forall|c: usize| #[trigger]
                out@.contains(c) <==> (o.contains(c) || v@.subrange(0, i as int).contains(c)),
        decreases v.len() - i,
    {
        proof {
            lemma_push_contains(out@, v@[i as int]);
            lemma_push_contains(v@.subrange(0, i as int), v@[i as int]);
        }
        out.push(v[i]);
        assert(v@.subrange(0, i + 1) =~= v@.subrange(0, i as int).push(v@[i as int]));
        i += 1;
    }
    assert(v@.subrange(0, v.len() as int) =~= v@);
}

/// Adds to `out` the output columns of `items`.
fn push_item_indices(items: &Vec<ScalarItem>, out: &mut Vec<usize>)
    ensures
        forall|c: usize| #[trigger]
            final(out)@.contains(c) <==> (old(out)@.contains(c) || exists|k: int|
                0 <= k < items@.len() && #[trigger] items@[k].index == c),
{
    let ghost o = out@;
    let mut i: usize = 0;
    while i < items.len()
        invariant
            0 <= i <= items.len(),
            forall|c: usize| #[trigger]
                out@.contains(c) <==> (o.contains(c) || exists|k: int|
                    0 <= k < i && #[trigger] items@[k].index == c),
        decreases items.len() - i,
    {
        proof {
            lemma_push_contains(out@, items@[i as int].index);
        }
        out.push(items[i].index);
        assert forall|c: usize| #[trigger]
            out@.contains(c) <==> (o.contains(c) || exists|k: int|
                0 <= k < i + 1 && #[trigger] items@[k].index == c) by {
            if items@[i as int].index == c {
                assert(out@[out@.len() - 1] == c);
            }
        }
        i += 1;
    }
}

/// Adds to `out` the columns that `e` produces.
fn collect_outputs(e: &SExpr, out: &mut Vec<usize>)
    ensures
        forall|c: usize| #[trigger]
            final(out)@.contains(c) <==> (old(out)@.contains(c) || plan_outputs(*e, c)),
    decreases e,
{
    match e {
        SExpr::Scan(s) => push_all(&s.columns, out),
        SExpr::DummyTableScan => {},
        SExpr::EvalScalar(p, ch) => {
            collect_outputs(ch, out);
            push_item_indices(&p.items, out);
        },
        SExpr::Filter(_, ch) => collect_outputs(ch, out),
        SExpr::Aggregate(p, _) => {
            push_item_indices(&p.group_items, out);
            push_item_indices(&p.aggregate_functions, out);
        },
        SExpr::Limit(_, ch) => collect_outputs(ch, out),
        SExpr::Sort(_, ch) => collect_outputs(ch, out),
        SExpr::Join(j, l, r) => {
            collect_outputs(l, out);
            collect_outputs(r, out);
            match j.marker_index {
                Some(m) => {
                    proof {
                        lemma_push_contains(out@, m);
                    }
                    out.push(m);
                },
                None => {},
            }
        },
        SExpr::UnionAll(_, l, _) => collect_outputs(l, out),
    }
}

/// Adds to `out` each column of `used` that `produced` lacks.
fn push_missing(used: &Vec<usize>, produced: &Vec<usize>, out: &mut Vec<usize>)
    ensures
        forall|c: usize| #[trigger]
            final(out)@.contains(c) <==> (old(out)@.contains(c) || (used@.contains(c)
                && !produced@.contains(c))),
{
    let ghost o = out@;
    let mut i: usize = 0;
    while i < used.len()
        invariant
            0 <= i <= used.len(),
            forall|c: usize| #[trigger]
                out@.contains(c) <==> (o.contains(c) || (used@.subrange(0, i as int).contains(c)
                    && !produced@.contains(c))),
        decreases used.len() - i,
    {
        let u = used[i];
        proof {
            lemma_push_contains(out@, u);
            lemma_push_contains(used@.subrange(0, i as int), u);
        }
        if !contains_index(produced, u) {
            out.push(u);
        }
        assert(used@.subrange(0, i + 1) =~= used@.subrange(0, i as int).push(u));
        i += 1;
    }
    assert(used@.subrange(0, used.len() as int) =~= used@);
}

/// Adds to `out` the outer columns of `e`.
fn collect_outer(e: &SExpr, out: &mut Vec<usize>)
    ensures
        forall|c: usize| #[trigger]
            final(out)@.contains(c) <==> (old(out)@.contains(c) || plan_outer(*e, c)),
    decreases e,
{
    match e {
        SExpr::Scan(_) => {},
        SExpr::DummyTableScan => {},
        SExpr::EvalScalar(p, ch) => {
            let mut used: Vec<usize> = Vec::new();
            collect_items_uses(&p.items, &mut used);
            let mut produced: Vec<usize> = Vec::new();
            collect_outputs(ch, &mut produced);
            push_missing(&used, &produced, out);
            collect_outer(ch, out);
        },
        SExpr::Filter(p, ch) => {
            let mut used: Vec<usize> = Vec::new();
            collect_seq_uses(&p.predicates, &mut used);
            let mut produced: Vec<usize> = Vec::new();
            collect_outputs(ch, &mut produced);
            push_missing(&used, &produced, out);
            collect_outer(ch, out);
        },
        SExpr::Aggregate(p, ch) => {
            let mut used: Vec<usize> = Vec::new();
            collect_items_uses(&p.group_items, &mut used);
            collect_items_uses(&p.aggregate_functions, &mut used);
            let mut produced: Vec<usize> = Vec::new();
            collect_outputs(ch, &mut produced);
            push_missing(&used, &produced, out);
            collect_outer(ch, out);
        },
        SExpr::Limit(_, ch) => collect_outer(ch, out),
        SExpr::Sort(p, ch) => {
            let mut used: Vec<usize> = Vec::new();
            let mut i: usize = 0;
            while i < p.items.len()
                invariant
                    0 <= i <= p.items.len(),
                    forall|c: usize| #[trigger]
                        used@.contains(c) <==> exists|k: int|
                            0 <= k < i && #[trigger] p.items@[k].index == c,
                decreases p.items.len() - i,
            {
                proof {
                    lemma_push_contains(used@, p.items@[i as int].index);
                }
                used.push(p.items[i].index);
                assert forall|c: usize| #[trigger]
                    used@.contains(c) <==> exists|k: int|
                        0 <= k < i + 1 && #[trigger] p.items@[k].index == c by {
                    if p.items@[i as int].index == c {
                        assert(used@[used@.len() - 1] == c);
                    }
                }
                i += 1;
            }
            let mut produced: Vec<usize> = Vec::new();
            collect_outputs(ch, &mut produced);
            push_missing(&used, &produced, out);
            collect_outer(ch, out);
        },
        SExpr::Join(j, l, r) => {
            let mut used: Vec<usize> = Vec::new();
            collect_seq_uses(&j.left_conditions, &mut used);
            collect_seq_uses(&j.right_conditions, &mut used);
            collect_seq_uses(&j.non_equi_conditions, &mut used);
            let mut produced: Vec<usize> = Vec::new();
            collect_outputs(l, &mut produced);
            collect_outputs(r, &mut produced);
            push_missing(&used, &produced, out);
            collect_outer(l, out);
            collect_outer(r, out);
        },
        SExpr::UnionAll(_, l, r) => {
            collect_outer(l, out);
            collect_outer(r, out);
        },
    }
}

/// The outer columns of `e`: those it references without producing them.
pub fn outer_columns(e: &SExpr) -> (r: Vec<usize>)
    ensures
        forall|c: usize| #[trigger] r@.contains(c) <==> plan_outer(*e, c),
{
    let mut r: Vec<usize> = Vec::new();
    collect_outer(e, &mut r);
    r
}

} // verus!

verus! {

/// The columns that `e` produces.
pub fn output_columns(e: &SExpr) -> (r: Vec<usize>)
    ensures
        forall|c: usize| #[trigger] r@.contains(c) <==> plan_outputs(*e, c),
{
    let mut r: Vec<usize> = Vec::new();
    collect_outputs(e, &mut r);
    r
}

} // verus!

verus! {

/// The columns that `s` references.
pub fn scalar_columns(s: &Scalar) -> (r: Vec<usize>)
    ensures
        forall|c: usize| #[trigger] r@.contains(c) <==> scalar_uses(*s, c),
{
    let mut r: Vec<usize> = Vec::new();
    collect_scalar_uses(s, &mut r);
    r
}

/// The columns that the scalars of `items` reference.
pub fn items_columns(items: &Vec<ScalarItem>) -> (r: Vec<usize>)
    ensures
        forall|c: usize| #[trigger] r@.contains(c) <==> items_use(items@, c),
{
    let mut r: Vec<usize> = Vec::new();
    collect_items_uses(items, &mut r);
    r
}

/// Whether every element of `a` occurs in `b`.
pub fn all_contained(a: &Vec<usize>, b: &Vec<usize>) -> (r: bool)
    ensures
        r == (forall|c: usize| a@.contains(c) ==> #[trigger] b@.contains(c)),
{
    let mut i: usize = 0;
    while i < a.len()
        invariant
            0 <= i <= a@.len(),
            forall|k: int| 0 <= k < i ==> #[trigger] b@.contains(a@[k]),
        decreases a.len() - i,
    {
        if !contains_index(b, a[i]) {
            assert(a@.contains(a@[i as int]));
            return false;
        }
        i += 1;
    }
    assert forall|c: usize| a@.contains(c) implies #[trigger] b@.contains(c) by {
        let k = choose|k: int| 0 <= k < a@.len() && a@[k] == c;
        assert(b@.contains(a@[k]));
    }
    true
}

} // verus!
