pub mod formatting;
pub mod interactive;
