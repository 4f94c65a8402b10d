pub mod decision;
pub mod engine;
pub mod error;
pub mod evaluation;
pub mod laws;
pub mod machine;
pub mod model;
pub mod nodes;
pub mod registry;
pub mod schedule;
pub mod value;
