use n2t_simulator::chip::{mask, Bus, ConstantPin, InSubBus, Net, OutSubBus, SubBus, HIGH, LOW};
use n2t_simulator::error::SimulatorError;

#[test]
fn test_set_word_then_get_word_for_every_width() {
    for width in 1..=16usize {
        let mut net = Net::new();
        let bus = Bus::new(&mut net, "n".to_string(), width);
        for v in [0u16, 1, 0x5555 & mask(width), mask(width)] {
            net.set_bus_voltage(bus, v);
            assert_eq!(net.bus_voltage(bus), v);
            for i in 0..width {
                assert_eq!(net.voltage(bus, Some(i)).unwrap(), ((v >> i) & 1) as u8);
            }
        }
    }
}

#[test]
fn test_set_word_cuts_to_the_width() {
    let mut net = Net::new();
    let bus = Bus::new(&mut net, "n".to_string(), 4);
    net.set_bus_voltage(bus, 0xABCD);
    assert_eq!(net.bus_voltage(bus), 0xD);
}

#[test]
fn test_set_bit_then_get_bit_for_every_bit() {
    let mut net = Net::new();
    let bus = Bus::new(&mut net, "n".to_string(), 16);
    for i in 0..16usize {
        for b in [HIGH, LOW, HIGH] {
            net.pull(bus, b, Some(i)).unwrap();
            assert_eq!(net.voltage(bus, Some(i)).unwrap(), b);
        }
    }
    assert_eq!(net.bus_voltage(bus), 0xFFFF);
}

#[test]
fn test_toggle_is_a_pull_to_the_opposite() {
    let mut net = Net::new();
    let bus = Bus::new(&mut net, "n".to_string(), 8);
    net.set_bus_voltage(bus, 0b1010_0101);
    net.toggle(bus, Some(0)).unwrap();
    net.toggle(bus, Some(1)).unwrap();
    net.toggle(bus, None).unwrap();
    assert_eq!(net.bus_voltage(bus), 0b1010_0111);
}

#[test]
fn test_bit_outside_the_node_is_a_hardware_error() {
    let mut net = Net::new();
    let bus = Bus::new(&mut net, "clk".to_string(), 3);
    net.set_bus_voltage(bus, 0b101);
    match net.pull(bus, HIGH, Some(3)) {
        Err(SimulatorError::Hardware(text)) => {
            assert_eq!(text, "Bit 3 out of bounds for pin clk (width 3)")
        }
        other => panic!("expected a hardware error, got {:?}", other),
    }
    assert!(matches!(net.voltage(bus, Some(7)), Err(SimulatorError::Hardware(_))));
    assert!(matches!(net.toggle(bus, Some(16)), Err(SimulatorError::Hardware(_))));
    assert_eq!(net.bus_voltage(bus), 0b101);
}

#[test]
fn test_listener_follows_its_bus_up_to_its_width() {
    let mut net = Net::new();
    let n = Bus::new(&mut net, "n".to_string(), 16);
    let l = Bus::new(&mut net, "l".to_string(), 8);
    net.set_bus_voltage(n, 0x1234);
    net.connect(n, l);
    assert_eq!(net.bus_voltage(l), 0x34);
    net.set_bus_voltage(n, 0xABCD);
    assert_eq!(net.bus_voltage(l), 0xCD);
    assert_eq!(net.listeners(n), vec![l]);
}

#[test]
fn test_listeners_are_told_in_the_order_of_attachment_and_depth_first() {
    let mut net = Net::new();
    let a = Bus::new(&mut net, "a".to_string(), 4);
    let b = Bus::new(&mut net, "b".to_string(), 4);
    let c = Bus::new(&mut net, "c".to_string(), 4);
    let d = Bus::new(&mut net, "d".to_string(), 4);
    net.connect(a, b);
    net.connect(b, c);
    net.connect(a, d);
    net.set_bus_voltage(a, 9);
    assert_eq!(net.bus_voltage(b), 9);
    assert_eq!(net.bus_voltage(c), 9);
    assert_eq!(net.bus_voltage(d), 9);
    net.pull(a, LOW, Some(3)).unwrap();
    assert_eq!(net.bus_voltage(c), 1);
    assert_eq!(net.bus_voltage(d), 1);
}

#[test]
fn test_feedback_ends() {
    let mut net = Net::new();
    let a = Bus::new(&mut net, "a".to_string(), 4);
    let b = Bus::new(&mut net, "b".to_string(), 4);
    net.connect(a, b);
    net.connect(b, a);
    net.set_bus_voltage(a, 5);
    assert_eq!(net.bus_voltage(a), 5);
    assert_eq!(net.bus_voltage(b), 5);
}

#[test]
fn test_feedback_through_a_slice_can_change_what_was_written() {
    let mut net = Net::new();
    let n = Bus::new(&mut net, "n".to_string(), 2);
    let s = InSubBus::new(&mut net, n, 1, 1).unwrap();
    net.connect(n, s);
    net.set_bus_voltage(n, 0b01);
    assert_eq!(net.bus_voltage(n), 0b11);
}

#[test]
fn test_slice_write_keeps_the_other_bits_of_the_parent() {
    let mut net = Net::new();
    let parent = Bus::new(&mut net, "p".to_string(), 16);
    net.set_bus_voltage(parent, 0xABCD);
    let sub = InSubBus::new(&mut net, parent, 4, 8).unwrap();
    assert_eq!(net.name(sub), "p[4..11]");
    assert_eq!(net.width(sub), 8);
    assert_eq!(net.bus_voltage(sub), 0xBC);
    net.set_bus_voltage(sub, 0xFF12);
    assert_eq!(net.bus_voltage(parent), 0xA12D);
    assert_eq!(net.bus_voltage(sub), 0x12);
    net.pull(sub, HIGH, Some(7)).unwrap();
    assert_eq!(net.bus_voltage(parent), 0xA92D);
    net.toggle(sub, Some(0)).unwrap();
    assert_eq!(net.bus_voltage(parent), 0xA93D);
}

#[test]
fn test_slice_of_a_slice() {
    let mut net = Net::new();
    let parent = Bus::new(&mut net, "p".to_string(), 16);
    let middle = SubBus::new(&mut net, parent, 4, 8).unwrap();
    let inner = InSubBus::new(&mut net, middle, 2, 3).unwrap();
    net.set_bus_voltage(inner, 0b101);
    assert_eq!(net.bus_voltage(parent), 0b101 << 6);
    assert_eq!(net.bus_voltage(middle), 0b101 << 2);
    assert_eq!(net.voltage(inner, Some(2)).unwrap(), HIGH);
}

#[test]
fn test_slices_that_do_not_fit_are_hardware_errors() {
    let mut net = Net::new();
    let parent = Bus::new(&mut net, "p".to_string(), 8);
    assert!(matches!(InSubBus::new(&mut net, parent, 0, 0), Err(SimulatorError::Hardware(_))));
    assert!(matches!(InSubBus::new(&mut net, parent, 1, 8), Err(SimulatorError::Hardware(_))));
    assert!(matches!(OutSubBus::new(&mut net, parent, 8, 1), Err(SimulatorError::Hardware(_))));
    assert!(matches!(
        OutSubBus::new_single_bit(&mut net, parent, usize::MAX),
        Err(SimulatorError::Hardware(_))
    ));
    assert!(InSubBus::new(&mut net, parent, 0, 8).is_ok());
    assert_eq!(net.len(), 2);
}

#[test]
fn test_attaching_to_a_writable_slice_attaches_to_its_parent() {
    let mut net = Net::new();
    let parent = Bus::new(&mut net, "p".to_string(), 8);
    let sub = InSubBus::new(&mut net, parent, 4, 4).unwrap();
    let l = Bus::new(&mut net, "l".to_string(), 8);
    net.set_bus_voltage(parent, 0xA5);
    net.connect(sub, l);
    assert_eq!(net.bus_voltage(l), 0xA5);
    assert_eq!(net.listeners(parent), vec![l]);
    assert_eq!(net.listeners(sub), Vec::<usize>::new());
    net.set_bus_voltage(sub, 0x3);
    assert_eq!(net.bus_voltage(l), 0x35);
}

#[test]
fn test_listeners_of_a_readable_slice_take_the_slice() {
    let mut net = Net::new();
    let parent = Bus::new(&mut net, "p".to_string(), 8);
    let sub = OutSubBus::new(&mut net, parent, 4, 4).unwrap();
    let l = Bus::new(&mut net, "l".to_string(), 4);
    net.set_bus_voltage(parent, 0xA5);
    net.connect(sub, l);
    assert_eq!(net.bus_voltage(l), 0xA);
    net.set_bus_voltage(parent, 0x3C);
    assert_eq!(net.bus_voltage(l), 0xA);
    let shown = net.bus_voltage(sub);
    net.set_bus_voltage(sub, shown);
    assert_eq!(net.bus_voltage(l), 0x3);
    assert_eq!(net.bus_voltage(parent), 0x3C);
}

#[test]
fn test_constants_never_change() {
    let mut net = Net::new();
    let high = ConstantPin::new(&mut net, "true".to_string()).unwrap();
    let one = ConstantPin::new(&mut net, "1".to_string()).unwrap();
    let low = ConstantPin::new(&mut net, "false".to_string()).unwrap();
    let zero = ConstantPin::new(&mut net, "0".to_string()).unwrap();
    assert_eq!(net.bus_voltage(high), 1);
    assert_eq!(net.bus_voltage(one), 1);
    assert_eq!(net.bus_voltage(low), 0);
    assert_eq!(net.bus_voltage(zero), 0);
    assert_eq!(net.width(high), 1);
    net.set_bus_voltage(high, 0);
    net.pull(high, LOW, None).unwrap();
    net.pull(high, LOW, Some(9)).unwrap();
    net.toggle(high, None).unwrap();
    assert_eq!(net.voltage(high, None).unwrap(), HIGH);
    assert!(net.voltage(high, Some(1)).is_err());
    let l = Bus::new(&mut net, "l".to_string(), 1);
    net.connect(high, l);
    assert_eq!(net.bus_voltage(l), 1);
    match ConstantPin::new(&mut net, "maybe".to_string()) {
        Err(SimulatorError::Hardware(text)) => assert_eq!(text, "Invalid constant pin name: maybe"),
        other => panic!("expected a hardware error, got {:?}", other),
    }
}

#[test]
fn test_a_bus_widens_and_never_shrinks() {
    let mut net = Net::new();
    let bus = Bus::new(&mut net, "b".to_string(), 4);
    net.set_bus_voltage(bus, 0xF);
    Bus::ensure_width(&mut net, bus, 8).unwrap();
    assert_eq!(net.width(bus), 8);
    assert_eq!(net.bus_voltage(bus), 0xF);
    Bus::ensure_width(&mut net, bus, 2).unwrap();
    assert_eq!(net.width(bus), 8);
    assert!(matches!(Bus::ensure_width(&mut net, bus, 17), Err(SimulatorError::Hardware(_))));
    assert_eq!(net.width(bus), 8);
    net.set_bus_voltage(bus, 0x1FF);
    assert_eq!(net.bus_voltage(bus), 0xFF);
}

#[test]
fn test_mask_values() {
    assert_eq!(mask(0), 0);
    assert_eq!(mask(1), 1);
    assert_eq!(mask(15), 0x7FFF);
    assert_eq!(mask(16), 0xFFFF);
    assert_eq!(mask(40), 0xFFFF);
}

#[test]
fn test_a_node_that_was_let_go_hears_nothing() {
    let mut net = Net::new();
    let n = Bus::new(&mut net, "n".to_string(), 8);
    let first = Bus::new(&mut net, "first".to_string(), 8);
    let second = Bus::new(&mut net, "second".to_string(), 8);
    net.connect(n, first);
    net.connect(n, second);
    net.connect(n, first);
    net.connect(first, second);
    net.set_bus_voltage(n, 0x11);
    assert_eq!(net.bus_voltage(first), 0x11);
    net.release(first);
    assert_eq!(net.listeners(n), vec![second]);
    assert_eq!(net.listeners(first), vec![second]);
    net.set_bus_voltage(n, 0x77);
    assert_eq!(net.bus_voltage(first), 0x11);
    assert_eq!(net.bus_voltage(second), 0x77);
    net.release(first);
    net.release(n);
    assert_eq!(net.listeners(n), vec![second]);
    net.connect(n, first);
    assert_eq!(net.bus_voltage(first), 0x77);
}
