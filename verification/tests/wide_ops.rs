#![allow(unused_imports, unused_mut, unused_variables)]
use n2t_simulator::chip::{
    create_input_subbus, create_output_subbus, mask, parse_pin_range, Add16Chip, AluChip,
    BitChip, Bus, Chip, ChipBuilder, Clock, Connection, DffChip, InSubBus, KeyboardChip, Memory,
    Net, OutSubBus, PcChip, PinRange, PinSide, Ram16kChip, Ram4kChip, Ram512Chip, Ram64Chip,
    Ram8Chip, RegisterChip, Rom32kChip, ScreenChip, WireError, HIGH, KEYBOARD_OFFSET, LOW,
    SCREEN_OFFSET, SCREEN_SIZE,
};
use n2t_simulator::languages::hdl::{HdlParser, WireSide};

#[test]
fn wide_ops_test_not16_chip() {
    let mut net = Net::new();
    let builder = ChipBuilder::new();
    let mut not16 = builder.build_builtin_chip(&mut net, "Not16").unwrap();

    let input = not16.get_pin("in").unwrap();

    // Test: in=0x0000 -> out=0xFFFF
    net.set_bus_voltage(input, 0x0000);
    not16.eval(&mut net).unwrap();
    let output = net.bus_voltage(not16.get_pin("out").unwrap());
    assert_eq!(output, 0xFFFF);

    // Test: in=0xF00F -> out=0x0FF0
    net.set_bus_voltage(input, 0xF00F);
    not16.eval(&mut net).unwrap();
    let output = net.bus_voltage(not16.get_pin("out").unwrap());
    assert_eq!(output, 0x0FF0);

    // Test: in=0xFFFF -> out=0x0000
    net.set_bus_voltage(input, 0xFFFF);
    not16.eval(&mut net).unwrap();
    let output = net.bus_voltage(not16.get_pin("out").unwrap());
    assert_eq!(output, 0x0000);
}

#[test]
fn test_and16_chip() {
    let mut net = Net::new();
    let builder = ChipBuilder::new();
    let mut and16 = builder.build_builtin_chip(&mut net, "And16").unwrap();

    let a = and16.get_pin("a").unwrap();
    let b = and16.get_pin("b").unwrap();

    // Test: a=0xFFFF, b=0x0000 -> out=0x0000
    net.set_bus_voltage(a, 0xFFFF);
    net.set_bus_voltage(b, 0x0000);
    and16.eval(&mut net).unwrap();
    let output = net.bus_voltage(and16.get_pin("out").unwrap());
    assert_eq!(output, 0x0000);

    // Test: a=0xFFFF, b=0xFFFF -> out=0xFFFF
    net.set_bus_voltage(a, 0xFFFF);
    net.set_bus_voltage(b, 0xFFFF);
    and16.eval(&mut net).unwrap();
    let output = net.bus_voltage(and16.get_pin("out").unwrap());
    assert_eq!(output, 0xFFFF);

    // Test: a=0xF0F0, b=0x0F0F -> out=0x0000
    net.set_bus_voltage(a, 0xF0F0);
    net.set_bus_voltage(b, 0x0F0F);
    and16.eval(&mut net).unwrap();
    let output = net.bus_voltage(and16.get_pin("out").unwrap());
    assert_eq!(output, 0x0000);

    // Test: a=0xF0F0, b=0xF0F0 -> out=0xF0F0
    net.set_bus_voltage(a, 0xF0F0);
    net.set_bus_voltage(b, 0xF0F0);
    and16.eval(&mut net).unwrap();
    let output = net.bus_voltage(and16.get_pin("out").unwrap());
    assert_eq!(output, 0xF0F0);
}

#[test]
fn test_or16_chip() {
    let mut net = Net::new();
    let builder = ChipBuilder::new();
    let mut or16 = builder.build_builtin_chip(&mut net, "Or16").unwrap();

    let a = or16.get_pin("a").unwrap();
    let b = or16.get_pin("b").unwrap();

    // Test: a=0x0000, b=0x0000 -> out=0x0000
    net.set_bus_voltage(a, 0x0000);
    net.set_bus_voltage(b, 0x0000);
    or16.eval(&mut net).unwrap();
    let output = net.bus_voltage(or16.get_pin("out").unwrap());
    assert_eq!(output, 0x0000);

    // Test: a=0xFFFF, b=0x0000 -> out=0xFFFF
    net.set_bus_voltage(a, 0xFFFF);
    net.set_bus_voltage(b, 0x0000);
    or16.eval(&mut net).unwrap();
    let output = net.bus_voltage(or16.get_pin("out").unwrap());
    assert_eq!(output, 0xFFFF);

    // Test: a=0xF0F0, b=0x0F0F -> out=0xFFFF
    net.set_bus_voltage(a, 0xF0F0);
    net.set_bus_voltage(b, 0x0F0F);
    or16.eval(&mut net).unwrap();
    let output = net.bus_voltage(or16.get_pin("out").unwrap());
    assert_eq!(output, 0xFFFF);
}

#[test]
fn test_mux16_chip() {
    let mut net = Net::new();
    let builder = ChipBuilder::new();
    let mut mux16 = builder.build_builtin_chip(&mut net, "Mux16").unwrap();

    let a = mux16.get_pin("a").unwrap();
    let b = mux16.get_pin("b").unwrap();
    let sel = mux16.get_pin("sel").unwrap();

    // Test: sel=LOW -> out=a
    net.set_bus_voltage(a, 0x1234);
    net.set_bus_voltage(b, 0x5678);
    net.pull(sel, LOW, None).unwrap();
    mux16.eval(&mut net).unwrap();
    let output = net.bus_voltage(mux16.get_pin("out").unwrap());
    assert_eq!(output, 0x1234);

    // Test: sel=HIGH -> out=b
    net.pull(sel, HIGH, None).unwrap();
    mux16.eval(&mut net).unwrap();
    let output = net.bus_voltage(mux16.get_pin("out").unwrap());
    assert_eq!(output, 0x5678);
}

#[test]
fn wide_ops_test_bus_voltage_operations() {
    let mut net = Net::new();
    // Test bus voltage manipulation functions
    let mut pin = Bus::new(&mut net, "wide".to_string(), 16);
    net.set_bus_voltage(pin, 0xF00F);

    // Test individual bit access
    assert_eq!(net.voltage(pin, Some(0)).unwrap(), HIGH);  // bit 0 = 1
    assert_eq!(net.voltage(pin, Some(1)).unwrap(), HIGH);  // bit 1 = 1
    assert_eq!(net.voltage(pin, Some(2)).unwrap(), HIGH);  // bit 2 = 1
    assert_eq!(net.voltage(pin, Some(3)).unwrap(), HIGH);  // bit 3 = 1
    assert_eq!(net.voltage(pin, Some(4)).unwrap(), LOW);   // bit 4 = 0
    assert_eq!(net.voltage(pin, Some(5)).unwrap(), LOW);   // bit 5 = 0
    assert_eq!(net.voltage(pin, Some(6)).unwrap(), LOW);   // bit 6 = 0
    assert_eq!(net.voltage(pin, Some(7)).unwrap(), LOW);   // bit 7 = 0
    assert_eq!(net.voltage(pin, Some(8)).unwrap(), LOW);   // bit 8 = 0
    assert_eq!(net.voltage(pin, Some(9)).unwrap(), LOW);   // bit 9 = 0
    assert_eq!(net.voltage(pin, Some(10)).unwrap(), LOW);  // bit 10 = 0
    assert_eq!(net.voltage(pin, Some(11)).unwrap(), LOW);  // bit 11 = 0
    assert_eq!(net.voltage(pin, Some(12)).unwrap(), HIGH); // bit 12 = 1
    assert_eq!(net.voltage(pin, Some(13)).unwrap(), HIGH); // bit 13 = 1
    assert_eq!(net.voltage(pin, Some(14)).unwrap(), HIGH); // bit 14 = 1
    assert_eq!(net.voltage(pin, Some(15)).unwrap(), HIGH); // bit 15 = 1

    // Test bus voltage
    assert_eq!(net.bus_voltage(pin), 0xF00F);
}

#[test]
fn test_add16_chip() {
    let mut net = Net::new();
    let builder = ChipBuilder::new();
    let mut add16 = builder.build_builtin_chip(&mut net, "Add16").unwrap();

    let a = add16.get_pin("a").unwrap();
    let b = add16.get_pin("b").unwrap();

    // Test: 0 + 0 = 0
    net.set_bus_voltage(a, 0);
    net.set_bus_voltage(b, 0);
    add16.eval(&mut net).unwrap();
    let output = net.bus_voltage(add16.get_pin("out").unwrap());
    assert_eq!(output, 0);

    // Test: 1 + 1 = 2
    net.set_bus_voltage(a, 1);
    net.set_bus_voltage(b, 1);
    add16.eval(&mut net).unwrap();
    let output = net.bus_voltage(add16.get_pin("out").unwrap());
    assert_eq!(output, 2);

    // Test: 100 + 200 = 300
    net.set_bus_voltage(a, 100);
    net.set_bus_voltage(b, 200);
    add16.eval(&mut net).unwrap();
    let output = net.bus_voltage(add16.get_pin("out").unwrap());
    assert_eq!(output, 300);

    // Test: overflow (should wrap around)
    net.set_bus_voltage(a, 0xFFFF);
    net.set_bus_voltage(b, 1);
    add16.eval(&mut net).unwrap();
    let output = net.bus_voltage(add16.get_pin("out").unwrap());
    assert_eq!(output, 0); // Wraps around to 0
}

#[test]
fn test_inc16_chip() {
    let mut net = Net::new();
    let builder = ChipBuilder::new();
    let mut inc16 = builder.build_builtin_chip(&mut net, "Inc16").unwrap();

    let input = inc16.get_pin("in").unwrap();

    // Test: 0 + 1 = 1
    net.set_bus_voltage(input, 0);
    inc16.eval(&mut net).unwrap();
    let output = net.bus_voltage(inc16.get_pin("out").unwrap());
    assert_eq!(output, 1);

    // Test: 99 + 1 = 100
    net.set_bus_voltage(input, 99);
    inc16.eval(&mut net).unwrap();
    let output = net.bus_voltage(inc16.get_pin("out").unwrap());
    assert_eq!(output, 100);

    // Test: overflow
    net.set_bus_voltage(input, 0xFFFF);
    inc16.eval(&mut net).unwrap();
    let output = net.bus_voltage(inc16.get_pin("out").unwrap());
    assert_eq!(output, 0); // Wraps around to 0
}
