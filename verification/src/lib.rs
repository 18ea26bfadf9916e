//! Manifest-level partition pruning.
//!
//! Given a filter predicate whose column references are already resolved to
//! positions in a partition-statistics array, and the per-column
//! min/max/null/NaN summaries recorded for one manifest, the evaluator decides
//! whether the manifest can be skipped without reading any data. The verdict
//! is one-sided: `false` means "provably no row can match", `true` means
//! "a row might match, scan it".

pub mod evaluator;
pub mod literal;
pub mod litset;
pub mod order;
pub mod predicate;
pub mod rows;
pub mod soundness;
pub mod summary;

pub use evaluator::{EvalError, ManifestEvaluator, ManifestEvaluatorBuilder};
pub use literal::Literal;
pub use literal::PrimitiveType;
pub use predicate::{BinaryOperator, BoundPredicate, BoundReference, SetOperator, UnaryOperator};
pub use summary::{FieldSummary, NanStatus};
