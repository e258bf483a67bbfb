//! Scalar expressions: the value-producing payload of plan operators.
use vstd::prelude::*;

use crate::plan::SExpr;
use crate::types::DataType;

verus! {

/// A literal value.
#[derive(Clone, Debug)]
pub enum Literal {
    Null,
    Boolean(bool),
    Int64(i64),
    UInt64(u64),
    String(String),
}

#[derive(Clone, Copy, Debug, PartialEq, Eq, Structural)]
pub enum Visibility {
    Visible,
    InVisible,
}

/// What a column reference binds to.
#[derive(Clone, Debug)]
pub struct ColumnBinding {
    pub database_name: Option<String>,
    pub table_name: Option<String>,
    pub column_name: String,
    pub index: usize,
    pub data_type: DataType,
    pub visibility: Visibility,
}

#[derive(Clone, Debug)]
pub struct BoundColumnRef {
    pub column: ColumnBinding,
}

#[derive(Clone, Debug)]
pub struct ConstantExpr {
    pub value: Literal,
    pub data_type: DataType,
}

#[derive(Debug)]
pub struct AndExpr {
    pub left: Box<Scalar>,
    pub right: Box<Scalar>,
    pub return_type: DataType,
}

#[derive(Debug)]
pub struct OrExpr {
    pub left: Box<Scalar>,
    pub right: Box<Scalar>,
    pub return_type: DataType,
}

#[derive(Debug)]
pub struct NotExpr {
    pub argument: Box<Scalar>,
    pub return_type: DataType,
}

#[derive(Clone, Copy, Debug, PartialEq, Eq, Structural)]
pub enum ComparisonOp {
    Equal,
    NotEqual,
    GT,
    LT,
    GTE,
    LTE,
}

#[derive(Debug)]
pub struct ComparisonExpr {
    pub op: ComparisonOp,
    pub left: Box<Scalar>,
    pub right: Box<Scalar>,
    pub return_type: DataType,
}

#[derive(Debug)]
pub struct AggregateFunction {
    pub display_name: String,
    pub func_name: String,
    pub distinct: bool,
    pub params: Vec<Literal>,
    pub args: Vec<Scalar>,
    pub return_type: DataType,
}

#[derive(Debug)]
pub struct FunctionCall {
    pub arguments: Vec<Scalar>,
    pub func_name: String,
    pub return_type: DataType,
}

#[derive(Debug)]
pub struct CastExpr {
    pub argument: Box<Scalar>,
    pub from_type: DataType,
    pub target_type: DataType,
}

#[derive(Clone, Copy, Debug, PartialEq, Eq, Structural)]
pub enum SubqueryType {
    Any,
    All,
    Scalar,
    Exists,
    NotExists,
}

/// A nested query standing where a value is expected.
#[derive(Debug)]
pub struct SubqueryExpr {
    pub typ: SubqueryType,
    pub subquery: Box<SExpr>,
    /// The left-hand side of an `ANY` / `IN` comparison.
    pub child_expr: Option<Box<Scalar>>,
    pub compare_op: Option<ComparisonOp>,
    /// The column that holds the subquery's output.
    pub output_column: usize,
    /// A marker column assigned in advance, if any.
    pub projection_index: Option<usize>,
    pub data_type: DataType,
}

#[derive(Debug)]
pub enum Scalar {
    BoundColumnRef(BoundColumnRef),
    ConstantExpr(ConstantExpr),
    AndExpr(AndExpr),
    OrExpr(OrExpr),
    NotExpr(NotExpr),
    ComparisonExpr(ComparisonExpr),
    AggregateFunction(AggregateFunction),
    FunctionCall(FunctionCall),
    CastExpr(CastExpr),
    SubqueryExpr(SubqueryExpr),
}

/// The scalar holds no subquery anywhere, aggregate arguments included.
pub open spec fn scalar_subquery_free(s: Scalar) -> bool
    decreases s,
{
    match s {
        Scalar::BoundColumnRef(_) => true,
        Scalar::ConstantExpr(_) => true,
        Scalar::AndExpr(e) => scalar_subquery_free(*e.left) && scalar_subquery_free(*e.right),
        Scalar::OrExpr(e) => scalar_subquery_free(*e.left) && scalar_subquery_free(*e.right),
        Scalar::NotExpr(e) => scalar_subquery_free(*e.argument),
        Scalar::ComparisonExpr(e) => scalar_subquery_free(*e.left) && scalar_subquery_free(
            *e.right,
        ),
        Scalar::AggregateFunction(f) => all_subquery_free(f.args@),
        Scalar::FunctionCall(f) => all_subquery_free(f.arguments@),
        Scalar::CastExpr(c) => scalar_subquery_free(*c.argument),
        Scalar::SubqueryExpr(_) => false,
    }
}

/// Every scalar of the sequence is free of subqueries (by recursion on the
/// sequence; see `scalars_subquery_free` for the same by quantifier).
pub open spec fn all_subquery_free(v: Seq<Scalar>) -> bool
    decreases v,
{
    if v.len() == 0 {
        true
    } else {
        all_subquery_free(v.drop_last()) && scalar_subquery_free(v.last())
    }
}

/// The two ways of saying that a sequence of scalars is free of subqueries agree.
pub proof fn lemma_all_subquery_free(v: Seq<Scalar>)
    ensures
        all_subquery_free(v) == scalars_subquery_free(v),
    decreases v.len(),
{
    if v.len() > 0 {
        let w = v.drop_last();
        lemma_all_subquery_free(w);
        if all_subquery_free(v) {
            assert forall|i: int| 0 <= i < v.len() implies #[trigger] scalar_subquery_free(v[i]) by {
                if i < v.len() - 1 {
                    assert(w[i] == v[i]);
                }
            }
        }
        if scalars_subquery_free(v) {
            assert forall|i: int| 0 <= i < w.len() implies #[trigger] scalar_subquery_free(w[i]) by {
                assert(w[i] == v[i]);
            }
            assert(scalar_subquery_free(v[v.len() - 1]));
        }
    }
}

/// Every scalar of the sequence is free of subqueries.
pub open spec fn scalars_subquery_free(v: Seq<Scalar>) -> bool {
    forall|i: int| 0 <= i < v.len() ==> #[trigger] scalar_subquery_free(v[i])
}

} // verus!

verus! {

/// Whether `s` holds no subquery.
pub fn scalar_is_subquery_free(s: &Scalar) -> (r: bool)
    ensures
        r == scalar_subquery_free(*s),
    decreases s,
{
    match s {
        Scalar::BoundColumnRef(_) => true,
        Scalar::ConstantExpr(_) => true,
        Scalar::AndExpr(e) => scalar_is_subquery_free(&e.left) && scalar_is_subquery_free(&e.right),
        Scalar::OrExpr(e) => scalar_is_subquery_free(&e.left) && scalar_is_subquery_free(&e.right),
        Scalar::NotExpr(e) => scalar_is_subquery_free(&e.argument),
        Scalar::ComparisonExpr(e) => scalar_is_subquery_free(&e.left) && scalar_is_subquery_free(
            &e.right,
        ),
        Scalar::AggregateFunction(f) => all_are_subquery_free(&f.args),
        Scalar::FunctionCall(f) => all_are_subquery_free(&f.arguments),
        Scalar::CastExpr(c) => scalar_is_subquery_free(&c.argument),
        Scalar::SubqueryExpr(_) => false,
    }
}

/// Whether every scalar of `v` holds no subquery.
pub fn all_are_subquery_free(v: &Vec<Scalar>) -> (r: bool)
    ensures
        r == all_subquery_free(v@),
    decreases v,
{
    let mut i: usize = 0;
    while i < v.len()
        invariant
            0 <= i <= v.len(),
            all_subquery_free(v@.subrange(0, i as int)),
        decreases v.len() - i,
    {
        proof {
            vstd::std_specs::vec::axiom_vec_index_decreases(*v, i as int);
        }
        assert(v@.subrange(0, i + 1).drop_last() =~= v@.subrange(0, i as int));
        if !scalar_is_subquery_free(&v[i]) {
            proof {
                lemma_all_subquery_free(v@);
            }
            return false;
        }
        i += 1;
    }
    assert(v@.subrange(0, v.len() as int) =~= v@);
    true
}

} // verus!
