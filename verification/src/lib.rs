//! Core library for a USACO command-line training helper: problem metadata,
//! a bounded recency-ordered problem cache, solution-test decision logic,
//! output comparison, official test-data archive reading and diff rendering.

pub mod archive;
pub mod cache;
pub mod compare;
pub mod credentials;
pub mod diffview;
pub mod division;
pub mod preferences;
pub mod problem;
pub mod runner;
pub mod scaffold;
pub mod text;
