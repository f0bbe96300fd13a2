use n2t_simulator::chip::{parse_pin_range, is_constant_pin, ChipBuilder, Net, PinRange};
use n2t_simulator::error::SimulatorError;
use n2t_simulator::languages::hdl::{HdlChip, HdlParser, Part, PinDecl, Wire, WireSide};
use n2t_simulator::text::{decimal, padded, trimmed, split};

fn build(net: &mut Net, source: &str) -> Result<n2t_simulator::chip::Chip, SimulatorError> {
    let mut parser = HdlParser::new().unwrap();
    let hdl = parser.parse(source)?;
    ChipBuilder::new().build_chip(net, &hdl)
}

#[test]
fn test_composite_from_a_description_computes() {
    let mut net = Net::new();
    let mut chip = build(
        &mut net,
        r#"
        // not a and b
        CHIP TestComposite {
            IN a, b;
            OUT out;

            PARTS:
            Not(in=a, out=notA);
            And(a=notA, b=b, out=out);
        }
    "#,
    )
    .unwrap();
    assert_eq!(chip.name(), "TestComposite");
    assert_eq!(chip.part_count(), 2);
    assert!(chip.internal_pins().contains_key("notA"));
    for (a, b) in [(0, 0), (0, 1), (1, 0), (1, 1)] {
        net.set_bus_voltage(chip.get_pin("a").unwrap(), a);
        net.set_bus_voltage(chip.get_pin("b").unwrap(), b);
        chip.eval(&mut net).unwrap();
        assert_eq!(net.bus_voltage(chip.get_pin("out").unwrap()), (1 - a) & b);
    }
}

#[test]
fn test_internal_pins_grow_to_the_width_that_is_asked_of_them() {
    let mut net = Net::new();
    let mut chip = build(
        &mut net,
        r#"
        CHIP TestInternal {
            IN a[16], b[16];
            OUT out[16];

            PARTS:
            Add16(a=a, b=b, out=sum);
            Inc16(in=sum, out=out);
        }
    "#,
    )
    .unwrap();
    assert_eq!(net.width(chip.get_pin("sum").unwrap()), 16);
    net.set_bus_voltage(chip.get_pin("a").unwrap(), 0x1200);
    net.set_bus_voltage(chip.get_pin("b").unwrap(), 0x0034);
    chip.eval(&mut net).unwrap();
    assert_eq!(net.bus_voltage(chip.get_pin("out").unwrap()), 0x1235);
    net.set_bus_voltage(chip.get_pin("a").unwrap(), 0xFFFF);
    net.set_bus_voltage(chip.get_pin("b").unwrap(), 0);
    chip.eval(&mut net).unwrap();
    assert_eq!(net.bus_voltage(chip.get_pin("out").unwrap()), 0);
}

#[test]
fn test_three_bit_not_from_a_description() {
    let mut net = Net::new();
    let mut chip = build(
        &mut net,
        r#"
        CHIP Not3 {
            IN in[3];
            OUT out[3];
            PARTS:
            Not(in=in[0], out=out[0]);
            Not(
                in=in[1],
                out=out[1]
            );
            Not(in=in[2],
                out=out[2]);
        }
    "#,
    )
    .unwrap();
    assert_eq!(chip.part_count(), 3);
    net.set_bus_voltage(chip.get_pin("in").unwrap(), 0b101);
    chip.eval(&mut net).unwrap();
    assert_eq!(net.bus_voltage(chip.get_pin("out").unwrap()), 0b010);
    net.set_bus_voltage(chip.get_pin("in").unwrap(), 0b010);
    chip.eval(&mut net).unwrap();
    assert_eq!(net.bus_voltage(chip.get_pin("out").unwrap()), 0b101);
}

#[test]
fn test_constants_and_ranges_in_a_description() {
    let mut net = Net::new();
    let mut chip = build(
        &mut net,
        r#"
        CHIP Halves {
            IN data[16];
            OUT low[8], high[8], flag;
            PARTS:
            Not16(in=data, out[0..7]=low, out[8..15]=high);
            Or(a=false, b=true, out=flag);
        }
    "#,
    )
    .unwrap();
    net.set_bus_voltage(chip.get_pin("data").unwrap(), 0x12F0);
    chip.eval(&mut net).unwrap();
    assert_eq!(net.bus_voltage(chip.get_pin("low").unwrap()), 0x0F);
    assert_eq!(net.bus_voltage(chip.get_pin("high").unwrap()), 0xED);
    assert_eq!(net.bus_voltage(chip.get_pin("flag").unwrap()), 1);
}

#[test]
fn test_building_errors() {
    let mut net = Net::new();
    let unknown = build(
        &mut net,
        "CHIP X {\n IN a;\n OUT out;\n PARTS:\n Nope(in=a, out=out);\n}",
    );
    match unknown {
        Err(SimulatorError::Hardware(text)) => assert_eq!(text, "Unknown builtin chip: Nope"),
        other => panic!("expected a hardware error, got {:?}", other.map(|c| c.name().to_string())),
    }
    let no_pin = build(
        &mut net,
        "CHIP X {\n IN a;\n OUT out;\n PARTS:\n Not(input=a, out=out);\n}",
    );
    match no_pin {
        Err(SimulatorError::PinNotFound { pin, chip }) => {
            assert_eq!(pin, "input");
            assert_eq!(chip, "Not");
        }
        other => panic!("expected pin-not-found, got {:?}", other.map(|c| c.name().to_string())),
    }
    let mismatch = build(
        &mut net,
        "CHIP X {\n IN a[4];\n OUT out;\n PARTS:\n Not(in=a, out=out);\n}",
    );
    assert!(matches!(mismatch, Err(SimulatorError::Hardware(_))));
    let too_wide = build(&mut net, "CHIP X {\n IN a[17];\n OUT out;\n PARTS:\n}");
    assert!(matches!(too_wide, Err(SimulatorError::Hardware(_))));
    let no_width = build(&mut net, "CHIP X {\n IN a[0];\n OUT out;\n PARTS:\n}");
    assert!(matches!(no_width, Err(SimulatorError::Hardware(_))));
    let builtin = build(&mut net, "CHIP Nope {\n IN a;\n OUT out;\n BUILTIN;\n}");
    assert!(matches!(builtin, Err(SimulatorError::Hardware(_))));
}

#[test]
fn test_a_syntax_tree_made_by_hand_builds() {
    let hdl = HdlChip {
        name: "ByHand".to_string(),
        inputs: vec![PinDecl { name: "a".to_string(), width: Some(2) }],
        outputs: vec![PinDecl { name: "out".to_string(), width: None }],
        parts: vec![Part {
            name: "Nand".to_string(),
            connections: vec![
                Wire {
                    from: WireSide::Pin {
                        name: "a".to_string(),
                        range: Some(PinRange::new_single_bit("a".to_string(), 0)),
                    },
                    to: WireSide::Pin { name: "a".to_string(), range: None },
                },
                Wire {
                    from: WireSide::Pin {
                        name: "a".to_string(),
                        range: Some(PinRange::new_single_bit("a".to_string(), 1)),
                    },
                    to: WireSide::Pin { name: "b".to_string(), range: None },
                },
                Wire {
                    from: WireSide::Pin { name: "out".to_string(), range: None },
                    to: WireSide::Pin { name: "out".to_string(), range: None },
                },
            ],
        }],
        is_builtin: false,
        clocked_pins: vec![],
    };
    let mut net = Net::new();
    let mut chip = ChipBuilder::new().build_chip(&mut net, &hdl).unwrap();
    for a in 0..4u16 {
        net.set_bus_voltage(chip.get_pin("a").unwrap(), a);
        chip.eval(&mut net).unwrap();
        assert_eq!(net.bus_voltage(chip.get_pin("out").unwrap()), if a == 3 { 0 } else { 1 });
    }
}

#[test]
fn test_pin_ranges_in_every_form() {
    let whole = parse_pin_range("sum").unwrap();
    assert_eq!((whole.pin_name.as_str(), whole.start, whole.end), ("sum", None, None));
    assert_eq!(whole.width(), 1);
    let bit = parse_pin_range("a[+5]").unwrap();
    assert_eq!((bit.pin_name.as_str(), bit.start, bit.end), ("a", Some(5), Some(5)));
    let range = parse_pin_range("a[7..2]").unwrap();
    assert_eq!((range.start, range.end), (Some(2), Some(7)));
    assert_eq!((range.width(), range.start_index(), range.end_index()), (6, 2, 7));
    assert!(!range.is_single_bit() && !range.is_full_pin());
    let closed_twice = parse_pin_range("a[3]]").unwrap();
    assert_eq!(closed_twice.start, Some(3));
    for wrong in ["", "[3]", "a[3", "a[3]x", "a[[3]", "a[b[3]]", "a[]", "a[x]", "a[1..]", "a[..2]",
        "a[1..2..3]", "a[1...2]", "a[-1]", "a[ 1]", "a[99999999999999999999]"]
    {
        assert!(
            matches!(parse_pin_range(wrong), Err(SimulatorError::Parse(_))),
            "{:?} should not parse",
            wrong
        );
    }
    assert!(matches!(
        PinRange::new_range("a".to_string(), 3, 2),
        Err(SimulatorError::Hardware(_))
    ));
    assert!(is_constant_pin("true") && is_constant_pin("0") && !is_constant_pin("True"));
}

#[test]
fn test_wire_sides_and_declarations() {
    let parser = HdlParser::new().unwrap();
    assert!(matches!(parser.parse_wire_side(" 1 ").unwrap(), WireSide::Constant(true)));
    assert!(matches!(parser.parse_wire_side("0").unwrap(), WireSide::Constant(false)));
    match parser.parse_wire_side("\tout[8..15] ").unwrap() {
        WireSide::Pin { name, range } => {
            assert_eq!(name, "out");
            let range = range.unwrap();
            assert_eq!((range.start, range.end), (Some(8), Some(15)));
        }
        other => panic!("expected a pin, got {:?}", other),
    }
    assert!(parser.parse_wire_side("a[0..18446744073709551615]").is_err());
    let decl = parser.parse_pin_decl(" data [ 16 ] ").unwrap();
    assert_eq!((decl.name.as_str(), decl.width), ("data", Some(16)));
    let decl = parser.parse_pin_decl("flag").unwrap();
    assert_eq!((decl.name.as_str(), decl.width), ("flag", None));
    assert!(parser.parse_pin_decl("a[65536]").is_err());
    assert!(parser.parse_pin_decl("a[16").is_err());
    assert!(parser.parse_pin_decl("a[]").is_err());
    let mut wires = Vec::new();
    parser.parse_connections_line("in = a , , out=b[1], stray", &mut wires).unwrap();
    assert_eq!(wires.len(), 2);
    assert!(parser.parse_connections_line("in=a[", &mut wires).is_err());
}

#[test]
fn test_descriptions_that_mean_nothing() {
    let mut parser = HdlParser::new().unwrap();
    for wrong in ["", "\n  \n// only a comment\n", "Chip X {\n}", "CHIP X {\n IN a\n OUT b;\n}"] {
        assert!(matches!(parser.parse(wrong), Err(SimulatorError::Parse(_))), "{:?}", wrong);
    }
    let bare = parser.parse("CHIP Bare {\n}").unwrap();
    assert_eq!(bare.name, "Bare");
    assert!(bare.inputs.is_empty() && bare.outputs.is_empty() && bare.parts.is_empty());
    assert!(!bare.is_builtin && bare.clocked_pins.is_empty());
    let spaced = parser.parse("  CHIP   Spaced  {  \r\n  BUILTIN;  \r\n}").unwrap();
    assert_eq!(spaced.name, "Spaced");
    assert!(spaced.is_builtin);
}

#[test]
fn test_text_helpers() {
    assert_eq!(decimal(0), "0");
    assert_eq!(decimal(65535), "65535");
    assert_eq!(decimal(u64::MAX), "18446744073709551615");
    assert_eq!(padded("12".to_string(), 5), "12   ");
    assert_eq!(padded("12345".to_string(), 3), "12345");
    assert_eq!(trimmed(" \t a b \u{a0}\n"), "a b");
    assert_eq!(trimmed("   "), "");
    assert_eq!(split("a,,b,", ','), vec!["a", "", "b", ""]);
    assert_eq!(split("", ','), vec![""]);
}
