pub mod chip;
pub mod error;
pub mod languages;
pub mod prelude;
pub mod test;
pub mod text;

pub use error::{SimulatorError, Span};
