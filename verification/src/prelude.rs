pub use crate::chip::builder::ChipBuilder;
pub use crate::chip::bus::Bus;
pub use crate::chip::chip::Chip;
pub use crate::chip::net::Net;
pub use crate::chip::pin::{PinId, Voltage};
pub use crate::error::SimulatorError;
pub use crate::languages::hdl::HdlParser;
