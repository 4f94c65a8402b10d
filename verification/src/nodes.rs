pub mod definition;
pub mod function;
pub mod passthrough;
