pub mod backend;
pub mod engine;
pub mod keys;
pub mod types;
pub mod validation;
