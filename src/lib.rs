pub mod canvas;
pub mod error;
pub mod ring;
pub mod spectrum;
