//! Knowledge base and resolver for pytest fixtures: extraction of fixture
//! definitions and usages from Python sources, pytest's layered name lookup,
//! completion filtering and semantic diagnostics.

pub mod analyzer;
pub mod completion;
pub mod context;
pub mod cycles;
pub mod database;
pub mod diagnostics;
pub mod docstring;
pub mod laws;
pub mod model;
pub mod names;
pub mod paths;
pub mod position;
pub mod python;
pub mod queries;
pub mod resolver;
pub mod scope;
pub mod syntax;
pub mod text;

pub use database::FixtureDatabase;
pub use model::{FixtureDefinition, FixtureUsage, UndeclaredFixture};
pub use scope::FixtureScope;
