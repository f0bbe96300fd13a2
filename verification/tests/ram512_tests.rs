#![allow(unused_imports, unused_mut, unused_variables)]
use n2t_simulator::chip::{
    create_input_subbus, create_output_subbus, mask, parse_pin_range, Add16Chip, AluChip,
    BitChip, Bus, Chip, ChipBuilder, Clock, Connection, DffChip, InSubBus, KeyboardChip, Memory,
    Net, OutSubBus, PcChip, PinRange, PinSide, Ram16kChip, Ram4kChip, Ram512Chip, Ram64Chip,
    Ram8Chip, RegisterChip, Rom32kChip, ScreenChip, WireError, HIGH, KEYBOARD_OFFSET, LOW,
    SCREEN_OFFSET, SCREEN_SIZE,
};
use n2t_simulator::languages::hdl::{HdlParser, WireSide};

#[test]
fn test_ram512_basic_structure() {
    let mut net = Net::new();
    let ram512 = Ram512Chip::new(&mut net);

    // Test basic properties
    assert_eq!(ram512.name(), "RAM512");
    assert!(ram512.get_pin("in").is_ok());
    assert!(ram512.get_pin("address").is_ok());
    assert!(ram512.get_pin("load").is_ok());
    assert!(ram512.get_pin("out").is_ok());

    // Test memory size
    assert_eq!(ram512.memory().size(), 512);
}

#[test]
fn test_ram512_sequential_write_read() {
    let mut net = Net::new();
    let mut ram512 = Ram512Chip::new(&mut net);

    // Test write operation at address 0
    net.set_bus_voltage(ram512.get_pin("address").unwrap(), 0);
    net.set_bus_voltage(ram512.get_pin("in").unwrap(), 0x1234);
    net.pull(ram512.get_pin("load").unwrap(), HIGH, None).unwrap();

    // Simulate clock cycle (tick for write, tock for output update)
    ram512.tick(&mut net, HIGH).unwrap();
    ram512.tock(&mut net, LOW).unwrap();

    // Verify write worked
    net.pull(ram512.get_pin("load").unwrap(), LOW, None).unwrap();
    ram512.eval(&mut net).unwrap();
    let output = net.bus_voltage(ram512.get_pin("out").unwrap());
    assert_eq!(output, 0x1234, "RAM512[0] should contain written value");

    // Test write to different address (edge of range)
    net.set_bus_voltage(ram512.get_pin("address").unwrap(), 511);
    net.set_bus_voltage(ram512.get_pin("in").unwrap(), 0x5678);
    net.pull(ram512.get_pin("load").unwrap(), HIGH, None).unwrap();

    ram512.tick(&mut net, HIGH).unwrap();
    ram512.tock(&mut net, LOW).unwrap();

    // Verify second write worked
    net.pull(ram512.get_pin("load").unwrap(), LOW, None).unwrap();
    ram512.eval(&mut net).unwrap();
    let output = net.bus_voltage(ram512.get_pin("out").unwrap());
    assert_eq!(output, 0x5678, "RAM512[511] should contain second written value");

    // Check first address is still intact
    net.set_bus_voltage(ram512.get_pin("address").unwrap(), 0);
    ram512.eval(&mut net).unwrap();
    let output = net.bus_voltage(ram512.get_pin("out").unwrap());
    assert_eq!(output, 0x1234, "RAM512[0] should still contain first written value");
}

#[test]
fn test_ram512_address_masking() {
    let mut net = Net::new();
    let mut ram512 = Ram512Chip::new(&mut net);

    // Test that addresses are properly masked to 9 bits
    // Address 512 (0b1000000000) should be masked to 0 (0b000000000)
    net.set_bus_voltage(ram512.get_pin("address").unwrap(), 512);
    net.set_bus_voltage(ram512.get_pin("in").unwrap(), 0x9999);
    net.pull(ram512.get_pin("load").unwrap(), HIGH, None).unwrap();

    ram512.tick(&mut net, HIGH).unwrap();
    ram512.tock(&mut net, LOW).unwrap();

    // Check that value was written to address 0 (512 & 0b111111111 = 0)
    net.set_bus_voltage(ram512.get_pin("address").unwrap(), 0);
    net.pull(ram512.get_pin("load").unwrap(), LOW, None).unwrap();
    ram512.eval(&mut net).unwrap();
    let output = net.bus_voltage(ram512.get_pin("out").unwrap());
    assert_eq!(output, 0x9999, "Address 512 should be masked to 0");
}

#[test]
fn test_ram512_boundary_addresses() {
    let mut net = Net::new();
    let mut ram512 = Ram512Chip::new(&mut net);

    // Test writes to boundary addresses including powers of 2
    let test_addresses = [0, 1, 63, 64, 127, 128, 255, 256, 511];
    let test_values = [0x1111, 0x2222, 0x3333, 0x4444, 0x5555, 0x6666, 0x7777, 0x8888, 0x9999];

    // Write to all test addresses
    for (i, &addr) in test_addresses.iter().enumerate() {
        net.set_bus_voltage(ram512.get_pin("address").unwrap(), addr);
        net.set_bus_voltage(ram512.get_pin("in").unwrap(), test_values[i]);
        net.pull(ram512.get_pin("load").unwrap(), HIGH, None).unwrap();
        ram512.tick(&mut net, HIGH).unwrap();
        ram512.tock(&mut net, LOW).unwrap();
    }

    // Verify all values were stored correctly
    for (i, &addr) in test_addresses.iter().enumerate() {
        net.set_bus_voltage(ram512.get_pin("address").unwrap(), addr);
        net.pull(ram512.get_pin("load").unwrap(), LOW, None).unwrap();
        ram512.eval(&mut net).unwrap();
        let output = net.bus_voltage(ram512.get_pin("out").unwrap());
        assert_eq!(output, test_values[i], "RAM512[{}] should contain correct value", addr);
    }
}
