#![allow(unused_imports, unused_mut, unused_variables)]
use n2t_simulator::chip::{
    create_input_subbus, create_output_subbus, mask, parse_pin_range, Add16Chip, AluChip,
    BitChip, Bus, Chip, ChipBuilder, Clock, Connection, DffChip, InSubBus, KeyboardChip, Memory,
    Net, OutSubBus, PcChip, PinRange, PinSide, Ram16kChip, Ram4kChip, Ram512Chip, Ram64Chip,
    Ram8Chip, RegisterChip, Rom32kChip, ScreenChip, WireError, HIGH, KEYBOARD_OFFSET, LOW,
    SCREEN_OFFSET, SCREEN_SIZE,
};
use n2t_simulator::languages::hdl::{HdlParser, WireSide};

#[test]
fn test_builtin_nand_chip() {
    let mut net = Net::new();
    let builder = ChipBuilder::new();
    let mut nand_chip = builder.build_builtin_chip(&mut net, "Nand").unwrap();

    // Test NAND truth table
    let test_cases = [
        (LOW, LOW, HIGH),   // 0 NAND 0 = 1
        (LOW, HIGH, HIGH),  // 0 NAND 1 = 1
        (HIGH, LOW, HIGH),  // 1 NAND 0 = 1
        (HIGH, HIGH, LOW),  // 1 NAND 1 = 0
    ];

    for (a_val, b_val, expected) in test_cases {
        // Set inputs
        net.pull(nand_chip.get_pin("a").unwrap(), a_val, None).unwrap();
        net.pull(nand_chip.get_pin("b").unwrap(), b_val, None).unwrap();

        // Evaluate
        nand_chip.eval(&mut net).unwrap();

        // Check output
        let output = net.voltage(nand_chip.get_pin("out").unwrap(), None).unwrap();
        assert_eq!(output, expected, "NAND({}, {}) should be {}", a_val, b_val, expected);
    }
}

#[test]
fn test_builtin_not_chip() {
    let mut net = Net::new();
    let builder = ChipBuilder::new();
    let mut not_chip = builder.build_builtin_chip(&mut net, "Not").unwrap();

    // Test NOT truth table
    let test_cases = [
        (LOW, HIGH),   // NOT 0 = 1
        (HIGH, LOW),   // NOT 1 = 0
    ];

    for (input_val, expected) in test_cases {
        net.pull(not_chip.get_pin("in").unwrap(), input_val, None).unwrap();
        not_chip.eval(&mut net).unwrap();

        let output = net.voltage(not_chip.get_pin("out").unwrap(), None).unwrap();
        assert_eq!(output, expected, "NOT({}) should be {}", input_val, expected);
    }
}

#[test]
fn test_builtin_and_chip() {
    let mut net = Net::new();
    let builder = ChipBuilder::new();
    let mut and_chip = builder.build_builtin_chip(&mut net, "And").unwrap();

    // Test AND truth table
    let test_cases = [
        (LOW, LOW, LOW),    // 0 AND 0 = 0
        (LOW, HIGH, LOW),   // 0 AND 1 = 0
        (HIGH, LOW, LOW),   // 1 AND 0 = 0
        (HIGH, HIGH, HIGH), // 1 AND 1 = 1
    ];

    for (a_val, b_val, expected) in test_cases {
        net.pull(and_chip.get_pin("a").unwrap(), a_val, None).unwrap();
        net.pull(and_chip.get_pin("b").unwrap(), b_val, None).unwrap();
        and_chip.eval(&mut net).unwrap();

        let output = net.voltage(and_chip.get_pin("out").unwrap(), None).unwrap();
        assert_eq!(output, expected, "AND({}, {}) should be {}", a_val, b_val, expected);
    }
}

#[test]
fn test_build_chip_from_hdl() {
    let mut net = Net::new();
    let builder = ChipBuilder::new();
    let mut parser = HdlParser::new().unwrap();

    let hdl = r#"
        CHIP Not {
            IN in;
            OUT out;
            BUILTIN;
        }
    "#;

    let hdl_chip = parser.parse(hdl).unwrap();
    let chip = builder.build_chip(&mut net, &hdl_chip).unwrap();

    assert_eq!(chip.name(), "Not");
    assert_eq!(chip.input_pins().len(), 1);
    assert_eq!(chip.output_pins().len(), 1);
    assert!(chip.input_pins().contains_key("in"));
    assert!(chip.output_pins().contains_key("out"));
}

#[test]
fn test_builtin_or_chip() {
    let mut net = Net::new();
    let builder = ChipBuilder::new();
    let mut or_chip = builder.build_builtin_chip(&mut net, "Or").unwrap();

    // Test OR truth table
    let test_cases = [
        (LOW, LOW, LOW),    // 0 OR 0 = 0
        (LOW, HIGH, HIGH),  // 0 OR 1 = 1
        (HIGH, LOW, HIGH),  // 1 OR 0 = 1
        (HIGH, HIGH, HIGH), // 1 OR 1 = 1
    ];

    for (a_val, b_val, expected) in test_cases {
        net.pull(or_chip.get_pin("a").unwrap(), a_val, None).unwrap();
        net.pull(or_chip.get_pin("b").unwrap(), b_val, None).unwrap();
        or_chip.eval(&mut net).unwrap();

        let output = net.voltage(or_chip.get_pin("out").unwrap(), None).unwrap();
        assert_eq!(output, expected, "OR({}, {}) should be {}", a_val, b_val, expected);
    }
}

#[test]
fn test_builtin_xor_chip() {
    let mut net = Net::new();
    let builder = ChipBuilder::new();
    let mut xor_chip = builder.build_builtin_chip(&mut net, "Xor").unwrap();

    // Test XOR truth table
    let test_cases = [
        (LOW, LOW, LOW),    // 0 XOR 0 = 0
        (LOW, HIGH, HIGH),  // 0 XOR 1 = 1
        (HIGH, LOW, HIGH),  // 1 XOR 0 = 1
        (HIGH, HIGH, LOW),  // 1 XOR 1 = 0
    ];

    for (a_val, b_val, expected) in test_cases {
        net.pull(xor_chip.get_pin("a").unwrap(), a_val, None).unwrap();
        net.pull(xor_chip.get_pin("b").unwrap(), b_val, None).unwrap();
        xor_chip.eval(&mut net).unwrap();

        let output = net.voltage(xor_chip.get_pin("out").unwrap(), None).unwrap();
        assert_eq!(output, expected, "XOR({}, {}) should be {}", a_val, b_val, expected);
    }
}

#[test]
fn test_builtin_not16_chip() {
    let mut net = Net::new();
    let builder = ChipBuilder::new();
    let mut not16_chip = builder.build_builtin_chip(&mut net, "Not16").unwrap();

    net.set_bus_voltage(not16_chip.get_pin("in").unwrap(), 0x0);
    not16_chip.eval(&mut net).unwrap();
    let output = net.bus_voltage(not16_chip.get_pin("out").unwrap());
    assert_eq!(output, 0xffff, "NOT16(0x0000) should be 0xFFFF");

    net.set_bus_voltage(not16_chip.get_pin("in").unwrap(), 0xf00f);
    not16_chip.eval(&mut net).unwrap();
    let output = net.bus_voltage(not16_chip.get_pin("out").unwrap());
    assert_eq!(output, 0x0ff0, "NOT16(0xF00F) should be 0x0FF0");
}

#[test]
fn test_builtin_and16_chip() {
    let mut net = Net::new();
    let builder = ChipBuilder::new();
    let mut and16_chip = builder.build_builtin_chip(&mut net, "And16").unwrap();

    // Test 16-bit AND operations
    net.set_bus_voltage(and16_chip.get_pin("a").unwrap(), 0xffff);
    net.set_bus_voltage(and16_chip.get_pin("b").unwrap(), 0x0000);
    and16_chip.eval(&mut net).unwrap();
    let output = net.bus_voltage(and16_chip.get_pin("out").unwrap());
    assert_eq!(output, 0x0000, "AND16(0xFFFF, 0x0000) should be 0x0000");

    net.set_bus_voltage(and16_chip.get_pin("a").unwrap(), 0xf0f0);
    net.set_bus_voltage(and16_chip.get_pin("b").unwrap(), 0x0f0f);
    and16_chip.eval(&mut net).unwrap();
    let output = net.bus_voltage(and16_chip.get_pin("out").unwrap());
    assert_eq!(output, 0x0000, "AND16(0xF0F0, 0x0F0F) should be 0x0000");

    net.set_bus_voltage(and16_chip.get_pin("a").unwrap(), 0xabcd);
    net.set_bus_voltage(and16_chip.get_pin("b").unwrap(), 0xefab);
    and16_chip.eval(&mut net).unwrap();
    let output = net.bus_voltage(and16_chip.get_pin("out").unwrap());
    assert_eq!(output, 0xabcd & 0xefab, "AND16(0xABCD, 0xEFAB) should be correct");
}

#[test]
fn test_builtin_or16_chip() {
    let mut net = Net::new();
    let builder = ChipBuilder::new();
    let mut or16_chip = builder.build_builtin_chip(&mut net, "Or16").unwrap();

    // Test 16-bit OR operations
    net.set_bus_voltage(or16_chip.get_pin("a").unwrap(), 0x0000);
    net.set_bus_voltage(or16_chip.get_pin("b").unwrap(), 0x0000);
    or16_chip.eval(&mut net).unwrap();
    let output = net.bus_voltage(or16_chip.get_pin("out").unwrap());
    assert_eq!(output, 0x0000, "OR16(0x0000, 0x0000) should be 0x0000");

    net.set_bus_voltage(or16_chip.get_pin("a").unwrap(), 0xf0f0);
    net.set_bus_voltage(or16_chip.get_pin("b").unwrap(), 0x0f0f);
    or16_chip.eval(&mut net).unwrap();
    let output = net.bus_voltage(or16_chip.get_pin("out").unwrap());
    assert_eq!(output, 0xffff, "OR16(0xF0F0, 0x0F0F) should be 0xFFFF");

    net.set_bus_voltage(or16_chip.get_pin("a").unwrap(), 0x1234);
    net.set_bus_voltage(or16_chip.get_pin("b").unwrap(), 0x5678);
    or16_chip.eval(&mut net).unwrap();
    let output = net.bus_voltage(or16_chip.get_pin("out").unwrap());
    assert_eq!(output, 0x1234 | 0x5678, "OR16(0x1234, 0x5678) should be correct");
}

#[test]
fn builder_test_bus_voltage_operations() {
    let mut net = Net::new();
    let mut bus = Bus::new(&mut net, "wide".to_string(), 16);
    net.set_bus_voltage(bus, 0xf00f);

    // Test individual bit access
    assert_eq!(net.voltage(bus, Some(0)).unwrap(), HIGH); // Bit 0 of 0xf00f
    assert_eq!(net.voltage(bus, Some(8)).unwrap(), LOW);  // Bit 8 of 0xf00f
    assert_eq!(net.voltage(bus, Some(9)).unwrap(), LOW);  // Bit 9 of 0xf00f
    assert_eq!(net.voltage(bus, Some(15)).unwrap(), HIGH); // Bit 15 of 0xf00f

    // Test bus voltage retrieval
    assert_eq!(net.bus_voltage(bus), 0xf00f);
}

#[test]
fn test_builtin_mux_chip() {
    let mut net = Net::new();
    let builder = ChipBuilder::new();
    let mut mux_chip = builder.build_builtin_chip(&mut net, "Mux").unwrap();

    // Test MUX truth table: out = sel ? b : a
    let test_cases = [
        (LOW, LOW, LOW, LOW),     // sel=0, a=0, b=0 -> out=0 (a)
        (LOW, HIGH, LOW, LOW),    // sel=0, a=0, b=1 -> out=0 (a)
        (HIGH, LOW, LOW, HIGH),   // sel=0, a=1, b=0 -> out=1 (a)
        (HIGH, HIGH, LOW, HIGH),  // sel=0, a=1, b=1 -> out=1 (a)
        (LOW, LOW, HIGH, LOW),    // sel=1, a=0, b=0 -> out=0 (b)
        (LOW, HIGH, HIGH, HIGH),  // sel=1, a=0, b=1 -> out=1 (b)
        (HIGH, LOW, HIGH, LOW),   // sel=1, a=1, b=0 -> out=0 (b)
        (HIGH, HIGH, HIGH, HIGH), // sel=1, a=1, b=1 -> out=1 (b)
    ];

    for (a_val, b_val, sel_val, expected) in test_cases {
        net.pull(mux_chip.get_pin("a").unwrap(), a_val, None).unwrap();
        net.pull(mux_chip.get_pin("b").unwrap(), b_val, None).unwrap();
        net.pull(mux_chip.get_pin("sel").unwrap(), sel_val, None).unwrap();
        mux_chip.eval(&mut net).unwrap();

        let output = net.voltage(mux_chip.get_pin("out").unwrap(), None).unwrap();
        assert_eq!(output, expected, "MUX(a={}, b={}, sel={}) should be {}", a_val, b_val, sel_val, expected);
    }
}

#[test]
fn test_builtin_dmux_chip() {
    let mut net = Net::new();
    let builder = ChipBuilder::new();
    let mut dmux_chip = builder.build_builtin_chip(&mut net, "DMux").unwrap();

    // Test DMUX truth table: routes input to selected output
    let test_cases = [
        (LOW, LOW, LOW, LOW),     // in=0, sel=0 -> a=0, b=0
        (HIGH, LOW, HIGH, LOW),   // in=1, sel=0 -> a=1, b=0 (route to a)
        (LOW, HIGH, LOW, LOW),    // in=0, sel=1 -> a=0, b=0
        (HIGH, HIGH, LOW, HIGH),  // in=1, sel=1 -> a=0, b=1 (route to b)
    ];

    for (in_val, sel_val, expected_a, expected_b) in test_cases {
        net.pull(dmux_chip.get_pin("in").unwrap(), in_val, None).unwrap();
        net.pull(dmux_chip.get_pin("sel").unwrap(), sel_val, None).unwrap();
        dmux_chip.eval(&mut net).unwrap();

        let output_a = net.voltage(dmux_chip.get_pin("a").unwrap(), None).unwrap();
        let output_b = net.voltage(dmux_chip.get_pin("b").unwrap(), None).unwrap();
        assert_eq!(output_a, expected_a, "DMUX(in={}, sel={}) output a should be {}", in_val, sel_val, expected_a);
        assert_eq!(output_b, expected_b, "DMUX(in={}, sel={}) output b should be {}", in_val, sel_val, expected_b);
    }
}

#[test]
fn test_builtin_mux16_chip() {
    let mut net = Net::new();
    let builder = ChipBuilder::new();
    let mut mux16_chip = builder.build_builtin_chip(&mut net, "Mux16").unwrap();

    // Test 16-bit MUX operations
    net.set_bus_voltage(mux16_chip.get_pin("a").unwrap(), 0x1234);
    net.set_bus_voltage(mux16_chip.get_pin("b").unwrap(), 0x5678);
    net.pull(mux16_chip.get_pin("sel").unwrap(), LOW, None).unwrap();
    mux16_chip.eval(&mut net).unwrap();
    let output = net.bus_voltage(mux16_chip.get_pin("out").unwrap());
    assert_eq!(output, 0x1234, "MUX16 with sel=0 should select input a");

    net.pull(mux16_chip.get_pin("sel").unwrap(), HIGH, None).unwrap();
    mux16_chip.eval(&mut net).unwrap();
    let output = net.bus_voltage(mux16_chip.get_pin("out").unwrap());
    assert_eq!(output, 0x5678, "MUX16 with sel=1 should select input b");
}

#[test]
fn test_builtin_mux4way16_chip() {
    let mut net = Net::new();
    let builder = ChipBuilder::new();
    let mut mux4way_chip = builder.build_builtin_chip(&mut net, "Mux4Way16").unwrap();

    // Set up test values
    net.set_bus_voltage(mux4way_chip.get_pin("a").unwrap(), 0x1111);
    net.set_bus_voltage(mux4way_chip.get_pin("b").unwrap(), 0x2222);
    net.set_bus_voltage(mux4way_chip.get_pin("c").unwrap(), 0x3333);
    net.set_bus_voltage(mux4way_chip.get_pin("d").unwrap(), 0x4444);

    // Test each selector value
    let test_cases = [
        (0b00, 0x1111), // sel=00 -> a
        (0b01, 0x2222), // sel=01 -> b
        (0b10, 0x3333), // sel=10 -> c
        (0b11, 0x4444), // sel=11 -> d
    ];

    for (sel_val, expected) in test_cases {
        net.set_bus_voltage(mux4way_chip.get_pin("sel").unwrap(), sel_val);
        mux4way_chip.eval(&mut net).unwrap();
        let output = net.bus_voltage(mux4way_chip.get_pin("out").unwrap());
        assert_eq!(output, expected, "MUX4WAY16 with sel={:02b} should output {:04x}", sel_val, expected);
    }
}

#[test]
fn test_builtin_add16_chip() {
    let mut net = Net::new();
    let builder = ChipBuilder::new();
    let mut add16_chip = builder.build_builtin_chip(&mut net, "Add16").unwrap();

    // Test basic addition
    net.set_bus_voltage(add16_chip.get_pin("a").unwrap(), 0x1234);
    net.set_bus_voltage(add16_chip.get_pin("b").unwrap(), 0x5678);
    add16_chip.eval(&mut net).unwrap();
    let output = net.bus_voltage(add16_chip.get_pin("out").unwrap());
    assert_eq!(output, (0x1234 + 0x5678) & 0xffff, "ADD16(0x1234, 0x5678) should be correct");

    // Test overflow wrapping
    net.set_bus_voltage(add16_chip.get_pin("a").unwrap(), 0xffff);
    net.set_bus_voltage(add16_chip.get_pin("b").unwrap(), 0x0001);
    add16_chip.eval(&mut net).unwrap();
    let output = net.bus_voltage(add16_chip.get_pin("out").unwrap());
    assert_eq!(output, 0x0000, "ADD16(0xFFFF, 0x0001) should wrap to 0x0000");

    // Test zero addition
    net.set_bus_voltage(add16_chip.get_pin("a").unwrap(), 0x0000);
    net.set_bus_voltage(add16_chip.get_pin("b").unwrap(), 0x0000);
    add16_chip.eval(&mut net).unwrap();
    let output = net.bus_voltage(add16_chip.get_pin("out").unwrap());
    assert_eq!(output, 0x0000, "ADD16(0x0000, 0x0000) should be 0x0000");
}

#[test]
fn test_builtin_inc16_chip() {
    let mut net = Net::new();
    let builder = ChipBuilder::new();
    let mut inc16_chip = builder.build_builtin_chip(&mut net, "Inc16").unwrap();

    // Test basic increment
    net.set_bus_voltage(inc16_chip.get_pin("in").unwrap(), 0x1234);
    inc16_chip.eval(&mut net).unwrap();
    let output = net.bus_voltage(inc16_chip.get_pin("out").unwrap());
    assert_eq!(output, 0x1235, "INC16(0x1234) should be 0x1235");

    // Test overflow wrapping
    net.set_bus_voltage(inc16_chip.get_pin("in").unwrap(), 0xffff);
    inc16_chip.eval(&mut net).unwrap();
    let output = net.bus_voltage(inc16_chip.get_pin("out").unwrap());
    assert_eq!(output, 0x0000, "INC16(0xFFFF) should wrap to 0x0000");

    // Test zero increment
    net.set_bus_voltage(inc16_chip.get_pin("in").unwrap(), 0x0000);
    inc16_chip.eval(&mut net).unwrap();
    let output = net.bus_voltage(inc16_chip.get_pin("out").unwrap());
    assert_eq!(output, 0x0001, "INC16(0x0000) should be 0x0001");
}

#[test]
fn test_builtin_half_adder_chip() {
    let mut net = Net::new();
    let builder = ChipBuilder::new();
    let mut half_adder_chip = builder.build_builtin_chip(&mut net, "HalfAdder").unwrap();

    // Test half adder truth table
    let test_cases = [
        (LOW, LOW, LOW, LOW),     // 0 + 0 = sum:0, carry:0
        (LOW, HIGH, HIGH, LOW),   // 0 + 1 = sum:1, carry:0
        (HIGH, LOW, HIGH, LOW),   // 1 + 0 = sum:1, carry:0
        (HIGH, HIGH, LOW, HIGH),  // 1 + 1 = sum:0, carry:1
    ];

    for (a_val, b_val, expected_sum, expected_carry) in test_cases {
        net.pull(half_adder_chip.get_pin("a").unwrap(), a_val, None).unwrap();
        net.pull(half_adder_chip.get_pin("b").unwrap(), b_val, None).unwrap();
        half_adder_chip.eval(&mut net).unwrap();

        let sum = net.voltage(half_adder_chip.get_pin("sum").unwrap(), None).unwrap();
        let carry = net.voltage(half_adder_chip.get_pin("carry").unwrap(), None).unwrap();
        assert_eq!(sum, expected_sum, "HalfAdder({}, {}) sum should be {}", a_val, b_val, expected_sum);
        assert_eq!(carry, expected_carry, "HalfAdder({}, {}) carry should be {}", a_val, b_val, expected_carry);
    }
}

#[test]
fn test_builtin_full_adder_chip() {
    let mut net = Net::new();
    let builder = ChipBuilder::new();
    let mut full_adder_chip = builder.build_builtin_chip(&mut net, "FullAdder").unwrap();

    // Test full adder truth table (adding 3 single bits)
    let test_cases = [
        (LOW, LOW, LOW, LOW, LOW),     // 0 + 0 + 0 = sum:0, carry:0
        (LOW, LOW, HIGH, HIGH, LOW),   // 0 + 0 + 1 = sum:1, carry:0
        (LOW, HIGH, LOW, HIGH, LOW),   // 0 + 1 + 0 = sum:1, carry:0
        (LOW, HIGH, HIGH, LOW, HIGH),  // 0 + 1 + 1 = sum:0, carry:1
        (HIGH, LOW, LOW, HIGH, LOW),   // 1 + 0 + 0 = sum:1, carry:0
        (HIGH, LOW, HIGH, LOW, HIGH),  // 1 + 0 + 1 = sum:0, carry:1
        (HIGH, HIGH, LOW, LOW, HIGH),  // 1 + 1 + 0 = sum:0, carry:1
        (HIGH, HIGH, HIGH, HIGH, HIGH), // 1 + 1 + 1 = sum:1, carry:1
    ];

    for (a_val, b_val, c_val, expected_sum, expected_carry) in test_cases {
        net.pull(full_adder_chip.get_pin("a").unwrap(), a_val, None).unwrap();
        net.pull(full_adder_chip.get_pin("b").unwrap(), b_val, None).unwrap();
        net.pull(full_adder_chip.get_pin("c").unwrap(), c_val, None).unwrap();
        full_adder_chip.eval(&mut net).unwrap();

        let sum = net.voltage(full_adder_chip.get_pin("sum").unwrap(), None).unwrap();
        let carry = net.voltage(full_adder_chip.get_pin("carry").unwrap(), None).unwrap();
        assert_eq!(sum, expected_sum, "FullAdder({}, {}, {}) sum should be {}", a_val, b_val, c_val, expected_sum);
        assert_eq!(carry, expected_carry, "FullAdder({}, {}, {}) carry should be {}", a_val, b_val, c_val, expected_carry);
    }
}

#[test]
fn test_builtin_alu_chip() {
    let mut net = Net::new();
    let builder = ChipBuilder::new();
    let mut alu_chip = builder.build_builtin_chip(&mut net, "ALU").unwrap();

    // Helper function to set ALU control signals
    let set_control_signals = |net: &mut Net, alu: &Chip, zx: u8, nx: u8, zy: u8, ny: u8, f: u8, no: u8| {
        net.pull(alu.get_pin("zx").unwrap(), zx, None).unwrap();
        net.pull(alu.get_pin("nx").unwrap(), nx, None).unwrap();
        net.pull(alu.get_pin("zy").unwrap(), zy, None).unwrap();
        net.pull(alu.get_pin("ny").unwrap(), ny, None).unwrap();
        net.pull(alu.get_pin("f").unwrap(), f, None).unwrap();
        net.pull(alu.get_pin("no").unwrap(), no, None).unwrap();
    };

    // Test ALU operation: compute 0 (zx=1, nx=0, zy=1, ny=0, f=1, no=0)
    net.set_bus_voltage(alu_chip.get_pin("x").unwrap(), 0x1234);
    net.set_bus_voltage(alu_chip.get_pin("y").unwrap(), 0x5678);
    set_control_signals(&mut net, &alu_chip, HIGH, LOW, HIGH, LOW, HIGH, LOW);
    alu_chip.eval(&mut net).unwrap();

    let output = net.bus_voltage(alu_chip.get_pin("out").unwrap());
    let zr = net.voltage(alu_chip.get_pin("zr").unwrap(), None).unwrap();
    let ng = net.voltage(alu_chip.get_pin("ng").unwrap(), None).unwrap();
    assert_eq!(output, 0x0000, "ALU should compute 0");
    assert_eq!(zr, HIGH, "Zero flag should be set");
    assert_eq!(ng, LOW, "Negative flag should be clear");

    // Test ALU operation: compute 1 (zx=1, nx=1, zy=1, ny=1, f=1, no=1)
    set_control_signals(&mut net, &alu_chip, HIGH, HIGH, HIGH, HIGH, HIGH, HIGH);
    alu_chip.eval(&mut net).unwrap();

    let output = net.bus_voltage(alu_chip.get_pin("out").unwrap());
    let zr = net.voltage(alu_chip.get_pin("zr").unwrap(), None).unwrap();
    let ng = net.voltage(alu_chip.get_pin("ng").unwrap(), None).unwrap();
    assert_eq!(output, 0x0001, "ALU should compute 1");
    assert_eq!(zr, LOW, "Zero flag should be clear");
    assert_eq!(ng, LOW, "Negative flag should be clear");

    // Test ALU operation: compute -1 (zx=1, nx=1, zy=1, ny=0, f=1, no=0)
    set_control_signals(&mut net, &alu_chip, HIGH, HIGH, HIGH, LOW, HIGH, LOW);
    alu_chip.eval(&mut net).unwrap();

    let output = net.bus_voltage(alu_chip.get_pin("out").unwrap());
    let zr = net.voltage(alu_chip.get_pin("zr").unwrap(), None).unwrap();
    let ng = net.voltage(alu_chip.get_pin("ng").unwrap(), None).unwrap();
    assert_eq!(output, 0xffff, "ALU should compute -1 (0xFFFF)");
    assert_eq!(zr, LOW, "Zero flag should be clear");
    assert_eq!(ng, HIGH, "Negative flag should be set");

    // Test ALU operation: compute x (zx=0, nx=0, zy=1, ny=1, f=0, no=0)
    net.set_bus_voltage(alu_chip.get_pin("x").unwrap(), 0x1234);
    set_control_signals(&mut net, &alu_chip, LOW, LOW, HIGH, HIGH, LOW, LOW);
    alu_chip.eval(&mut net).unwrap();

    let output = net.bus_voltage(alu_chip.get_pin("out").unwrap());
    assert_eq!(output, 0x1234, "ALU should compute x");

    // Test ALU operation: compute y (zx=1, nx=1, zy=0, ny=0, f=0, no=0)
    net.set_bus_voltage(alu_chip.get_pin("y").unwrap(), 0x5678);
    set_control_signals(&mut net, &alu_chip, HIGH, HIGH, LOW, LOW, LOW, LOW);
    alu_chip.eval(&mut net).unwrap();

    let output = net.bus_voltage(alu_chip.get_pin("out").unwrap());
    assert_eq!(output, 0x5678, "ALU should compute y");

    // Test ALU operation: compute x+y (zx=0, nx=0, zy=0, ny=0, f=1, no=0)
    net.set_bus_voltage(alu_chip.get_pin("x").unwrap(), 0x1234);
    net.set_bus_voltage(alu_chip.get_pin("y").unwrap(), 0x5678);
    set_control_signals(&mut net, &alu_chip, LOW, LOW, LOW, LOW, HIGH, LOW);
    alu_chip.eval(&mut net).unwrap();

    let output = net.bus_voltage(alu_chip.get_pin("out").unwrap());
    let expected = (0x1234u16.wrapping_add(0x5678)) & 0xffff;
    assert_eq!(output, expected, "ALU should compute x+y");

    // Test ALU operation: compute x&y (zx=0, nx=0, zy=0, ny=0, f=0, no=0)
    set_control_signals(&mut net, &alu_chip, LOW, LOW, LOW, LOW, LOW, LOW);
    alu_chip.eval(&mut net).unwrap();

    let output = net.bus_voltage(alu_chip.get_pin("out").unwrap());
    let expected = 0x1234 & 0x5678;
    assert_eq!(output, expected, "ALU should compute x&y");
}

#[test]
fn test_builtin_ram8_chip() {
    let mut net = Net::new();
    let builder = ChipBuilder::new();
    let ram8_chip = builder.build_builtin_chip(&mut net, "RAM8").unwrap();

    // Test basic pin existence and naming
    assert_eq!(ram8_chip.name(), "RAM8");
    assert!(ram8_chip.get_pin("in").is_ok());
    assert!(ram8_chip.get_pin("address").is_ok());
    assert!(ram8_chip.get_pin("load").is_ok());
    assert!(ram8_chip.get_pin("out").is_ok());

    // Test that it's registered correctly in the builder
    assert!(ram8_chip.is_input_pin("in"));
    assert!(ram8_chip.is_input_pin("address"));
    assert!(ram8_chip.is_input_pin("load"));
    assert!(ram8_chip.is_output_pin("out"));
}

#[test]
fn test_builtin_ram64_chip() {
    let mut net = Net::new();
    let builder = ChipBuilder::new();
    let ram64_chip = builder.build_builtin_chip(&mut net, "RAM64").unwrap();

    // Test basic pin existence and naming
    assert_eq!(ram64_chip.name(), "RAM64");
    assert!(ram64_chip.get_pin("in").is_ok());
    assert!(ram64_chip.get_pin("address").is_ok());
    assert!(ram64_chip.get_pin("load").is_ok());
    assert!(ram64_chip.get_pin("out").is_ok());

    // Test that it's registered correctly in the builder
    assert!(ram64_chip.is_input_pin("in"));
    assert!(ram64_chip.is_input_pin("address"));
    assert!(ram64_chip.is_input_pin("load"));
    assert!(ram64_chip.is_output_pin("out"));
}
