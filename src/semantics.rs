//! What the joins introduced by unnesting compute, on one outer row: the
//! existence test by bounded count, and the three-valued marker of a mark join.
use vstd::prelude::*;

verus! {

/// Rows left of `rows` under `LIMIT limit`.
pub open spec fn limited_count(rows: nat, limit: nat) -> nat {
    if rows < limit {
        rows
    } else {
        limit
    }
}

/// `EXISTS` holds of an inner result of `rows` rows exactly when
/// `COUNT(*)` over it under `LIMIT 1` equals 1; `NOT EXISTS` exactly when
/// that count differs from 1.
pub proof fn lemma_exists_as_count(rows: nat)
    ensures
        (limited_count(rows, 1) == 1) == (rows > 0),
        (limited_count(rows, 1) != 1) == !(rows > 0),
{
}

/// Evaluates the rewritten existence test on an inner result of
/// `inner_rows` rows: `count(*) = 1` over `LIMIT 1`, negated for `NOT EXISTS`.
pub fn exists_by_count(inner_rows: usize, negated: bool) -> (r: bool)
    ensures
        r == ((inner_rows > 0) != negated),
{
    let count: usize = if inner_rows < 1 { inner_rows } else { 1 };
    proof {
        lemma_exists_as_count(inner_rows as nat);
    }
    if negated {
        count != 1
    } else {
        count == 1
    }
}

/// The marker of `v IN inner` under three-valued logic (`None` is `NULL`):
/// `TRUE` on a match; else `NULL` if some inner value is `NULL`; else
/// `FALSE`. An outer `NULL` matches nothing and compares unknown with every
/// inner value, so against a non-empty set it gives `NULL` too, even with no
/// `NULL` inside; against the empty set every marker is `FALSE`.
pub open spec fn spec_mark(v: Option<i64>, inner: Seq<Option<i64>>) -> Option<bool> {
    if inner.len() == 0 {
        Some(false)
    } else if v is Some && inner.contains(v) {
        Some(true)
    } else if v is None || inner.contains(None) {
        None
    } else {
        Some(false)
    }
}

/// The marker is `TRUE` exactly on a match, `NULL` exactly when there is no
/// match and a `NULL` on either side of a non-empty comparison, `FALSE`
/// otherwise.
pub proof fn lemma_mark_cases(v: Option<i64>, inner: Seq<Option<i64>>)
    ensures
        spec_mark(v, inner) == Some(true) <==> (v is Some && inner.contains(v)),
        spec_mark(v, inner) is None <==> (inner.len() > 0 && !(v is Some && inner.contains(v)) && (
        v is None || inner.contains(None))),
        spec_mark(v, inner) == Some(false) <==> (inner.len() == 0 || (v is Some
            && !inner.contains(v) && !inner.contains(None))),
{
    if v is Some && inner.contains(v) {
        assert(inner.len() > 0);
    }
}

/// Computes the marker of `v IN inner`.
pub fn mark_value(v: Option<i64>, inner: &Vec<Option<i64>>) -> (r: Option<bool>)
    ensures
        r == spec_mark(v, inner@),
{
    if inner.len() == 0 {
        return Some(false);
    }
    let mut found = false;
    let mut saw_null = false;
    let mut i: usize = 0;
    while i < inner.len()
        invariant
            0 <= i <= inner.len(),
            found == (v is Some && inner@.subrange(0, i as int).contains(v)),
            saw_null == inner@.subrange(0, i as int).contains(None),
        decreases inner.len() - i,
    {
        let x = inner[i];
        let ghost pre = inner@.subrange(0, i as int);
        assert(inner@.subrange(0, i + 1) =~= pre.push(x));
        proof {
            assert forall|y: Option<i64>| pre.push(x).contains(y) <==> (pre.contains(y) || y == x) by {
                if pre.contains(y) {
                    let k = choose|k: int| 0 <= k < pre.len() && pre[k] == y;
                    assert(pre.push(x)[k] == y);
                }
                if y == x {
                    assert(pre.push(x)[pre.len() as int] == y);
                }
                if pre.push(x).contains(y) && y != x {
                    let k = choose|k: int| 0 <= k < pre.len() + 1 && pre.push(x)[k] == y;
                    assert(pre[k] == y);
                }
            }
        }
        match (v, x) {
            (Some(a), Some(b)) => {
                if a == b {
                    found = true;
                }
            },
            (_, None) => {
                saw_null = true;
            },
            _ => {},
        }
        i += 1;
    }
    assert(inner@.subrange(0, inner.len() as int) =~= inner@);
    if found {
        Some(true)
    } else if v.is_none() || saw_null {
        None
    } else {
        Some(false)
    }
}

} // verus!
