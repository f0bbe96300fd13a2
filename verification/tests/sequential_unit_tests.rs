#![allow(unused_imports, unused_mut, unused_variables)]
use n2t_simulator::chip::{
    create_input_subbus, create_output_subbus, mask, parse_pin_range, Add16Chip, AluChip,
    BitChip, Bus, Chip, ChipBuilder, Clock, Connection, DffChip, InSubBus, KeyboardChip, Memory,
    Net, OutSubBus, PcChip, PinRange, PinSide, Ram16kChip, Ram4kChip, Ram512Chip, Ram64Chip,
    Ram8Chip, RegisterChip, Rom32kChip, ScreenChip, WireError, HIGH, KEYBOARD_OFFSET, LOW,
    SCREEN_OFFSET, SCREEN_SIZE,
};
use n2t_simulator::languages::hdl::{HdlParser, WireSide};

#[test]
fn sequential_tests_test_dff_basic_operation() {
    let mut net = Net::new();
    let mut dff = DffChip::new(&mut net);
    let clock = Clock::new();
    dff.subscribe_to_clock(clock.subscribe());

    // Initially output should be LOW
    dff.eval(&mut net).unwrap();
    let output = net.voltage(dff.get_pin("out").unwrap(), None).unwrap();
    assert_eq!(output, LOW);

    // Set input to HIGH
    net.pull(dff.get_pin("in").unwrap(), HIGH, None).unwrap();

    // Tick (rising edge) - should sample input
    dff.tick(&mut net, HIGH).unwrap();

    // Output should still be LOW until tock
    let output = net.voltage(dff.get_pin("out").unwrap(), None).unwrap();
    assert_eq!(output, LOW);

    // Tock (falling edge) - should output stored value
    dff.tock(&mut net, LOW).unwrap();
    let output = net.voltage(dff.get_pin("out").unwrap(), None).unwrap();
    assert_eq!(output, HIGH);

    // Change input to LOW
    net.pull(dff.get_pin("in").unwrap(), LOW, None).unwrap();

    // Output should remain HIGH until next cycle
    let output = net.voltage(dff.get_pin("out").unwrap(), None).unwrap();
    assert_eq!(output, HIGH);

    // Next cycle: tick and tock
    dff.tick(&mut net, HIGH).unwrap();
    dff.tock(&mut net, LOW).unwrap();

    // Now output should be LOW
    let output = net.voltage(dff.get_pin("out").unwrap(), None).unwrap();
    assert_eq!(output, LOW);
}

#[test]
fn test_dff_reset() {
    let mut net = Net::new();
    let mut dff = DffChip::new(&mut net);

    // Set up a HIGH state
    net.pull(dff.get_pin("in").unwrap(), HIGH, None).unwrap();
    dff.tick(&mut net, HIGH).unwrap();
    dff.tock(&mut net, LOW).unwrap();

    let output = net.voltage(dff.get_pin("out").unwrap(), None).unwrap();
    assert_eq!(output, HIGH);

    // Reset should clear output
    dff.reset(&mut net).unwrap();
    let output = net.voltage(dff.get_pin("out").unwrap(), None).unwrap();
    assert_eq!(output, LOW);
}

#[test]
fn sequential_tests_test_bit_load_operation() {
    let mut net = Net::new();
    let mut bit = BitChip::new(&mut net);

    // Initially output should be LOW
    bit.eval(&mut net).unwrap();
    let output = net.voltage(bit.get_pin("out").unwrap(), None).unwrap();
    assert_eq!(output, LOW);

    // Set input and load
    net.pull(bit.get_pin("in").unwrap(), HIGH, None).unwrap();
    net.pull(bit.get_pin("load").unwrap(), HIGH, None).unwrap();

    // Tick should load the value
    bit.tick(&mut net, HIGH).unwrap();

    // Tock should output the loaded value
    bit.tock(&mut net, LOW).unwrap();
    let output = net.voltage(bit.get_pin("out").unwrap(), None).unwrap();
    assert_eq!(output, HIGH);

    // Change input but don't set load
    net.pull(bit.get_pin("in").unwrap(), LOW, None).unwrap();
    net.pull(bit.get_pin("load").unwrap(), LOW, None).unwrap();

    // Value should remain unchanged
    bit.tick(&mut net, HIGH).unwrap();
    bit.tock(&mut net, LOW).unwrap();
    let output = net.voltage(bit.get_pin("out").unwrap(), None).unwrap();
    assert_eq!(output, HIGH);

    // Now load the new value
    net.pull(bit.get_pin("load").unwrap(), HIGH, None).unwrap();
    bit.tick(&mut net, HIGH).unwrap();
    bit.tock(&mut net, LOW).unwrap();
    let output = net.voltage(bit.get_pin("out").unwrap(), None).unwrap();
    assert_eq!(output, LOW);
}

#[test]
fn sequential_tests_test_register_16bit_operation() {
    let mut net = Net::new();
    let mut register = RegisterChip::new(&mut net);

    // Initially output should be 0
    register.eval(&mut net).unwrap();
    let output = net.bus_voltage(register.get_pin("out").unwrap());
    assert_eq!(output, 0);

    // Set input to a 16-bit value
    let test_value = 0xABCD;
    net.set_bus_voltage(register.get_pin("in").unwrap(), test_value);
    net.pull(register.get_pin("load").unwrap(), HIGH, None).unwrap();

    // Tick and tock to load the value
    register.tick(&mut net, HIGH).unwrap();
    register.tock(&mut net, LOW).unwrap();

    let output = net.bus_voltage(register.get_pin("out").unwrap());
    assert_eq!(output, test_value);

    // Change input but don't load
    net.set_bus_voltage(register.get_pin("in").unwrap(), 0x1234);
    net.pull(register.get_pin("load").unwrap(), LOW, None).unwrap();

    register.tick(&mut net, HIGH).unwrap();
    register.tock(&mut net, LOW).unwrap();

    // Value should remain unchanged
    let output = net.bus_voltage(register.get_pin("out").unwrap());
    assert_eq!(output, test_value);
}

#[test]
fn test_register_reset() {
    let mut net = Net::new();
    let mut register = RegisterChip::new(&mut net);

    // Load a value
    net.set_bus_voltage(register.get_pin("in").unwrap(), 0xFFFF);
    net.pull(register.get_pin("load").unwrap(), HIGH, None).unwrap();
    register.tick(&mut net, HIGH).unwrap();
    register.tock(&mut net, LOW).unwrap();

    let output = net.bus_voltage(register.get_pin("out").unwrap());
    assert_eq!(output, 0xFFFF);

    // Reset should clear the register
    register.reset(&mut net).unwrap();
    let output = net.bus_voltage(register.get_pin("out").unwrap());
    assert_eq!(output, 0);
}

#[test]
fn sequential_tests_test_pc_increment() {
    let mut net = Net::new();
    let mut pc = PcChip::new(&mut net);

    // Initially output should be 0
    pc.eval(&mut net).unwrap();
    let output = net.bus_voltage(pc.get_pin("out").unwrap());
    assert_eq!(output, 0);

    // Enable increment
    net.pull(pc.get_pin("inc").unwrap(), HIGH, None).unwrap();
    net.pull(pc.get_pin("load").unwrap(), LOW, None).unwrap();
    net.pull(pc.get_pin("reset").unwrap(), LOW, None).unwrap();

    // Should increment on each clock cycle
    for i in 1..=5 {
        pc.tick(&mut net, HIGH).unwrap();
        pc.tock(&mut net, LOW).unwrap();
        let output = net.bus_voltage(pc.get_pin("out").unwrap());
        assert_eq!(output, i);
    }
}

#[test]
fn sequential_tests_test_pc_load() {
    let mut net = Net::new();
    let mut pc = PcChip::new(&mut net);

    // Increment to some value first
    net.pull(pc.get_pin("inc").unwrap(), HIGH, None).unwrap();
    net.pull(pc.get_pin("load").unwrap(), LOW, None).unwrap();
    net.pull(pc.get_pin("reset").unwrap(), LOW, None).unwrap();

    pc.tick(&mut net, HIGH).unwrap();
    pc.tock(&mut net, LOW).unwrap();
    pc.tick(&mut net, HIGH).unwrap();
    pc.tock(&mut net, LOW).unwrap();

    let output = net.bus_voltage(pc.get_pin("out").unwrap());
    assert_eq!(output, 2);

    // Now load a specific value
    let load_value = 0x100;
    net.set_bus_voltage(pc.get_pin("in").unwrap(), load_value);
    net.pull(pc.get_pin("load").unwrap(), HIGH, None).unwrap();
    net.pull(pc.get_pin("inc").unwrap(), LOW, None).unwrap();

    pc.tick(&mut net, HIGH).unwrap();
    pc.tock(&mut net, LOW).unwrap();

    let output = net.bus_voltage(pc.get_pin("out").unwrap());
    assert_eq!(output, load_value);
}

#[test]
fn sequential_tests_test_pc_reset() {
    let mut net = Net::new();
    let mut pc = PcChip::new(&mut net);

    // Load a value and increment
    net.set_bus_voltage(pc.get_pin("in").unwrap(), 0x500);
    net.pull(pc.get_pin("load").unwrap(), HIGH, None).unwrap();
    net.pull(pc.get_pin("inc").unwrap(), LOW, None).unwrap();
    net.pull(pc.get_pin("reset").unwrap(), LOW, None).unwrap();

    pc.tick(&mut net, HIGH).unwrap();
    pc.tock(&mut net, LOW).unwrap();

    let output = net.bus_voltage(pc.get_pin("out").unwrap());
    assert_eq!(output, 0x500);

    // Reset should override everything
    net.pull(pc.get_pin("load").unwrap(), HIGH, None).unwrap();
    net.pull(pc.get_pin("inc").unwrap(), HIGH, None).unwrap();
    net.pull(pc.get_pin("reset").unwrap(), HIGH, None).unwrap();

    pc.tick(&mut net, HIGH).unwrap();
    pc.tock(&mut net, LOW).unwrap();

    let output = net.bus_voltage(pc.get_pin("out").unwrap());
    assert_eq!(output, 0);
}

#[test]
fn test_pc_priority_order() {
    let mut net = Net::new();
    let mut pc = PcChip::new(&mut net);

    // Test that reset has highest priority
    net.set_bus_voltage(pc.get_pin("in").unwrap(), 0x123);
    net.pull(pc.get_pin("load").unwrap(), HIGH, None).unwrap();
    net.pull(pc.get_pin("inc").unwrap(), HIGH, None).unwrap();
    net.pull(pc.get_pin("reset").unwrap(), HIGH, None).unwrap();

    pc.tick(&mut net, HIGH).unwrap();
    pc.tock(&mut net, LOW).unwrap();

    let output = net.bus_voltage(pc.get_pin("out").unwrap());
    assert_eq!(output, 0); // Reset wins

    // Test that load has priority over increment
    net.pull(pc.get_pin("load").unwrap(), HIGH, None).unwrap();
    net.pull(pc.get_pin("inc").unwrap(), HIGH, None).unwrap();
    net.pull(pc.get_pin("reset").unwrap(), LOW, None).unwrap();

    pc.tick(&mut net, HIGH).unwrap();
    pc.tock(&mut net, LOW).unwrap();

    let output = net.bus_voltage(pc.get_pin("out").unwrap());
    assert_eq!(output, 0x123); // Load wins over increment
}

#[test]
fn test_sequential_chips_from_builder() {
    let mut net = Net::new();
    let builder = ChipBuilder::new();

    // Test DFF
    let dff = builder.build_builtin_chip(&mut net, "DFF").unwrap();
    assert_eq!(dff.name(), "DFF");
    assert!(dff.get_pin("in").is_ok());
    assert!(dff.get_pin("out").is_ok());

    // Test Bit
    let bit = builder.build_builtin_chip(&mut net, "Bit").unwrap();
    assert_eq!(bit.name(), "Bit");
    assert!(bit.get_pin("in").is_ok());
    assert!(bit.get_pin("load").is_ok());
    assert!(bit.get_pin("out").is_ok());

    // Test Register
    let register = builder.build_builtin_chip(&mut net, "Register").unwrap();
    assert_eq!(register.name(), "Register");
    assert!(register.get_pin("in").is_ok());
    assert!(register.get_pin("load").is_ok());
    assert!(register.get_pin("out").is_ok());

    // Test PC
    let pc = builder.build_builtin_chip(&mut net, "PC").unwrap();
    assert_eq!(pc.name(), "PC");
    assert!(pc.get_pin("in").is_ok());
    assert!(pc.get_pin("load").is_ok());
    assert!(pc.get_pin("inc").is_ok());
    assert!(pc.get_pin("reset").is_ok());
    assert!(pc.get_pin("out").is_ok());
}
