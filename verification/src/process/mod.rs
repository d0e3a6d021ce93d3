pub mod engine;
pub mod reader;
pub mod writer;
