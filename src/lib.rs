//! Logical query planning core: the scalar and relational expression model,
//! the metadata registry that mints derived columns, the derivation of outer
//! columns, and the rewriter that turns subqueries into joins.
use vstd::prelude::*;

pub mod chunk;
pub mod error;
pub mod metadata;
pub mod names;
pub mod plan;
pub mod property;
pub mod rewriter;
pub mod scalar;
pub mod semantics;
pub mod types;
pub mod unnest_spec;

pub use chunk::Chunk;
pub use chunk::ChunkEntry;
pub use error::ErrorCode;
pub use metadata::Metadata;
pub use plan::SExpr;
pub use rewriter::check_child_expr_in_subquery;
pub use rewriter::FlattenInfo;
pub use rewriter::SubqueryRewriter;
pub use rewriter::UnnestResult;
pub use scalar::Scalar;
pub use types::DataType;
pub use types::NumberDataType;
pub use types::TypeKind;

verus! {

} // verus!
