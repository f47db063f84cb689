//! Builder core for a small graph-description language: shape algebra,
//! port/shape tables, shape linking, built-in call expansion, IR assembly,
//! clone-safe template duplication, a node cache, and program assembly.

pub mod seed;
pub mod strmap;
pub mod value;
pub mod graph;
pub mod error;
pub mod link;
pub mod vars;
pub mod tensor;
pub mod ir;
pub mod builder;
pub mod cache;
pub mod exec;
pub mod machine;

pub use seed::Seed;
pub use strmap::StrMap;
