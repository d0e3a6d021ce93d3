pub mod engine;
pub mod gui;
