pub mod arithmetic;
pub mod computer;
pub mod gates;
pub mod laws;
pub mod logic;
pub mod memory;
pub mod sequential;
pub mod table;
