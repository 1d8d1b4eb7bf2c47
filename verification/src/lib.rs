pub mod batch;
pub mod engine;
pub mod json;
pub mod pattern;
