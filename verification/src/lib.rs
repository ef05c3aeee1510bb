//! Typed data model and validation engine for a behavior-tree authoring
//! format.
//!
//! The crate defines the project schema (named behavior trees, reusable
//! action signatures, user-defined aggregate types), the recursive
//! typed-value algebra used for blackboard variables and literal defaults,
//! and a validation engine that checks a whole project for internal
//! consistency: every name reference resolves, every binding's value type
//! matches its declared type, and the reference graphs among trees and
//! among struct definitions contain no cycles.

pub mod algebra;
pub mod cycles;
pub mod errors;
pub mod laws;
pub mod schema;
pub mod validate;

pub use algebra::Argument;
pub use algebra::ArgumentDiscriminant;
pub use algebra::TypeShape;
pub use errors::Namespace;
pub use errors::ValidationError;
pub use schema::BehaviorTree;
pub use schema::Project;
pub use validate::validate;
pub use validate::validate_with_policy;
