pub mod builder;
pub mod builtins;
pub mod bus;
pub mod chip;
pub mod clock;
pub mod laws;
pub mod model;
pub mod net;
pub mod pin;
pub mod pinmap;
pub mod signal;
pub mod subbus;
pub mod wiring;

pub use builder::ChipBuilder;
pub use builtins::arithmetic::{
    Add16Chip, AluChip, And16Chip, FullAdderChip, HalfAdderChip, Inc16Chip, Mux16Chip,
    Mux4Way16Chip, Mux8Way16Chip, Not16Chip, Or16Chip,
};
pub use builtins::computer::{
    KeyboardChip, Rom32kChip, ScreenChip, KEYBOARD_OFFSET, SCREEN_OFFSET, SCREEN_SIZE,
};
pub use builtins::gates::AluFlags;
pub use builtins::logic::{
    AndChip, DMux4WayChip, DMux8WayChip, DMuxChip, MuxChip, NandChip, NotChip, OrChip, XorChip,
};
pub use builtins::memory::Memory;
pub use builtins::sequential::{
    BitChip, DffChip, PcChip, Ram16kChip, Ram4kChip, Ram512Chip, Ram64Chip, Ram8Chip,
    RegisterChip,
};
pub use builtins::table::ChipKind;
pub use bus::{Bus, SubBus};
pub use chip::{Chip, ChipInterface, ClockedChip};
pub use clock::{Clock, ClockTick};
pub use net::{mask, Net};
pub use pin::{is_constant_pin, ConstantPin, Pin, PinId, PinKind, Voltage, HIGH, LOW};
pub use pinmap::PinMap;
pub use subbus::{
    create_input_subbus, create_output_subbus, parse_pin_range, InSubBus, OutSubBus, PinRange,
};
pub use wiring::{Connection, PinSide, WireError};
