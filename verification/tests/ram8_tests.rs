#![allow(unused_imports, unused_mut, unused_variables)]
use n2t_simulator::chip::{
    create_input_subbus, create_output_subbus, mask, parse_pin_range, Add16Chip, AluChip,
    BitChip, Bus, Chip, ChipBuilder, Clock, Connection, DffChip, InSubBus, KeyboardChip, Memory,
    Net, OutSubBus, PcChip, PinRange, PinSide, Ram16kChip, Ram4kChip, Ram512Chip, Ram64Chip,
    Ram8Chip, RegisterChip, Rom32kChip, ScreenChip, WireError, HIGH, KEYBOARD_OFFSET, LOW,
    SCREEN_OFFSET, SCREEN_SIZE,
};
use n2t_simulator::languages::hdl::{HdlParser, WireSide};

#[test]
fn test_ram8_basic_structure() {
    let mut net = Net::new();
    let ram8 = Ram8Chip::new(&mut net);

    // Test basic properties
    assert_eq!(ram8.name(), "RAM8");
    assert!(ram8.get_pin("in").is_ok());
    assert!(ram8.get_pin("address").is_ok());
    assert!(ram8.get_pin("load").is_ok());
    assert!(ram8.get_pin("out").is_ok());

    // Test memory size
    assert_eq!(ram8.memory().size(), 8);
}

#[test]
fn test_ram8_combinatorial_read() {
    let mut net = Net::new();
    let mut ram8 = Ram8Chip::new(&mut net);

    // Test initial state - should read 0 from all addresses
    for addr in 0..8 {
        net.set_bus_voltage(ram8.get_pin("address").unwrap(), addr);
        ram8.eval(&mut net).unwrap();
        let output = net.bus_voltage(ram8.get_pin("out").unwrap());
        assert_eq!(output, 0, "Initial RAM8[{}] should be 0", addr);
    }
}

#[test]
fn test_ram8_sequential_write_read() {
    let mut net = Net::new();
    let mut ram8 = Ram8Chip::new(&mut net);

    // Test write operation at address 0
    net.set_bus_voltage(ram8.get_pin("address").unwrap(), 0);
    net.set_bus_voltage(ram8.get_pin("in").unwrap(), 0x1234);
    net.pull(ram8.get_pin("load").unwrap(), HIGH, None).unwrap();

    // Simulate clock cycle (tick for write, tock for output update)
    ram8.tick(&mut net, HIGH).unwrap();
    ram8.tock(&mut net, LOW).unwrap();

    // Verify write worked
    net.pull(ram8.get_pin("load").unwrap(), LOW, None).unwrap();
    ram8.eval(&mut net).unwrap();
    let output = net.bus_voltage(ram8.get_pin("out").unwrap());
    assert_eq!(output, 0x1234, "RAM8[0] should contain written value");

    // Test write to different address
    net.set_bus_voltage(ram8.get_pin("address").unwrap(), 7);
    net.set_bus_voltage(ram8.get_pin("in").unwrap(), 0x5678);
    net.pull(ram8.get_pin("load").unwrap(), HIGH, None).unwrap();

    ram8.tick(&mut net, HIGH).unwrap();
    ram8.tock(&mut net, LOW).unwrap();

    // Verify second write worked
    net.pull(ram8.get_pin("load").unwrap(), LOW, None).unwrap();
    ram8.eval(&mut net).unwrap();
    let output = net.bus_voltage(ram8.get_pin("out").unwrap());
    assert_eq!(output, 0x5678, "RAM8[7] should contain second written value");

    // Check first address is still intact
    net.set_bus_voltage(ram8.get_pin("address").unwrap(), 0);
    ram8.eval(&mut net).unwrap();
    let output = net.bus_voltage(ram8.get_pin("out").unwrap());
    assert_eq!(output, 0x1234, "RAM8[0] should still contain first written value");
}

#[test]
fn test_ram8_no_write_without_load() {
    let mut net = Net::new();
    let mut ram8 = Ram8Chip::new(&mut net);

    // Set input and address but don't set load signal
    net.set_bus_voltage(ram8.get_pin("address").unwrap(), 0);
    net.set_bus_voltage(ram8.get_pin("in").unwrap(), 0x1234);
    net.pull(ram8.get_pin("load").unwrap(), LOW, None).unwrap();

    // Simulate clock cycle
    ram8.tick(&mut net, HIGH).unwrap();
    ram8.tock(&mut net, LOW).unwrap();

    // Verify no write occurred
    ram8.eval(&mut net).unwrap();
    let output = net.bus_voltage(ram8.get_pin("out").unwrap());
    assert_eq!(output, 0, "RAM8[0] should remain 0 without load signal");
}

#[test]
fn test_ram8_address_masking() {
    let mut net = Net::new();
    let mut ram8 = Ram8Chip::new(&mut net);

    // Test that addresses are properly masked to 3 bits
    // Address 8 (0b1000) should be masked to 0 (0b000)
    net.set_bus_voltage(ram8.get_pin("address").unwrap(), 8);
    net.set_bus_voltage(ram8.get_pin("in").unwrap(), 0x9999);
    net.pull(ram8.get_pin("load").unwrap(), HIGH, None).unwrap();

    ram8.tick(&mut net, HIGH).unwrap();
    ram8.tock(&mut net, LOW).unwrap();

    // Check that value was written to address 0 (8 & 0b111 = 0)
    net.set_bus_voltage(ram8.get_pin("address").unwrap(), 0);
    net.pull(ram8.get_pin("load").unwrap(), LOW, None).unwrap();
    ram8.eval(&mut net).unwrap();
    let output = net.bus_voltage(ram8.get_pin("out").unwrap());
    assert_eq!(output, 0x9999, "Address 8 should be masked to 0");
}

#[test]
fn test_ram8_reset() {
    let mut net = Net::new();
    let mut ram8 = Ram8Chip::new(&mut net);

    // Write some values
    for addr in 0..8 {
        net.set_bus_voltage(ram8.get_pin("address").unwrap(), addr);
        net.set_bus_voltage(ram8.get_pin("in").unwrap(), (addr + 1) * 0x1111);
        net.pull(ram8.get_pin("load").unwrap(), HIGH, None).unwrap();
        ram8.tick(&mut net, HIGH).unwrap();
        ram8.tock(&mut net, LOW).unwrap();
    }

    // Reset
    ram8.reset(&mut net).unwrap();

    // Verify all values are reset to 0
    for addr in 0..8 {
        net.set_bus_voltage(ram8.get_pin("address").unwrap(), addr);
        net.pull(ram8.get_pin("load").unwrap(), LOW, None).unwrap(); // Ensure load is low for read-only
        ram8.eval(&mut net).unwrap();
        let output = net.bus_voltage(ram8.get_pin("out").unwrap());
        assert_eq!(output, 0, "RAM8[{}] should be 0 after reset", addr);
    }
}
