#![allow(unused_imports, unused_mut, unused_variables)]
use n2t_simulator::chip::{
    create_input_subbus, create_output_subbus, mask, parse_pin_range, Add16Chip, AluChip,
    BitChip, Bus, Chip, ChipBuilder, Clock, Connection, DffChip, InSubBus, KeyboardChip, Memory,
    Net, OutSubBus, PcChip, PinRange, PinSide, Ram16kChip, Ram4kChip, Ram512Chip, Ram64Chip,
    Ram8Chip, RegisterChip, Rom32kChip, ScreenChip, WireError, HIGH, KEYBOARD_OFFSET, LOW,
    SCREEN_OFFSET, SCREEN_SIZE,
};
use n2t_simulator::languages::hdl::{HdlParser, WireSide};

#[test]
fn test_screen_basic_structure() {
    let mut net = Net::new();
    let screen = ScreenChip::new(&mut net);

    // Test basic properties
    assert_eq!(screen.name(), "Screen");
    assert!(screen.get_pin("in").is_ok());
    assert!(screen.get_pin("address").is_ok());
    assert!(screen.get_pin("load").is_ok());
    assert!(screen.get_pin("out").is_ok());

    // Test memory size
    assert_eq!(screen.memory().size(), SCREEN_SIZE);
    assert_eq!(SCREEN_SIZE, 8192);
    assert_eq!(SCREEN_OFFSET, 16384);
}

#[test]
fn test_screen_memory_operations() {
    let mut net = Net::new();
    let mut screen = ScreenChip::new(&mut net);

    // Test write operation at address 0
    net.set_bus_voltage(screen.get_pin("address").unwrap(), 0);
    net.set_bus_voltage(screen.get_pin("in").unwrap(), 0x1234);
    net.pull(screen.get_pin("load").unwrap(), HIGH, None).unwrap();

    // Simulate clock cycle
    screen.tick(&mut net, HIGH).unwrap();
    screen.tock(&mut net, LOW).unwrap();

    // Verify write worked
    net.pull(screen.get_pin("load").unwrap(), LOW, None).unwrap();
    screen.eval(&mut net).unwrap();
    let output = net.bus_voltage(screen.get_pin("out").unwrap());
    assert_eq!(output, 0x1234, "Screen[0] should contain written value");
}

#[test]
fn test_screen_pixel_operations() {
    let mut net = Net::new();
    let mut screen = ScreenChip::new(&mut net);

    // Test setting individual pixels
    ScreenChip::set_pixel(&mut screen, 0, 0, true);   // Top-left pixel
    ScreenChip::set_pixel(&mut screen, 15, 0, true);  // 16th pixel in first row (end of first word)
    ScreenChip::set_pixel(&mut screen, 16, 0, true);  // 17th pixel in first row (start of second word)
    ScreenChip::set_pixel(&mut screen, 511, 255, true); // Bottom-right pixel

    // Verify pixels were set
    assert!(ScreenChip::get_pixel(&screen, 0, 0), "Pixel (0,0) should be set");
    assert!(ScreenChip::get_pixel(&screen, 15, 0), "Pixel (15,0) should be set");
    assert!(ScreenChip::get_pixel(&screen, 16, 0), "Pixel (16,0) should be set");
    assert!(ScreenChip::get_pixel(&screen, 511, 255), "Pixel (511,255) should be set");

    // Test clearing pixels
    ScreenChip::set_pixel(&mut screen, 0, 0, false);
    assert!(!ScreenChip::get_pixel(&screen, 0, 0), "Pixel (0,0) should be cleared");

    // Test out-of-bounds pixels
    assert!(!ScreenChip::get_pixel(&screen, 512, 0), "Out-of-bounds pixel should be false");
    assert!(!ScreenChip::get_pixel(&screen, 0, 256), "Out-of-bounds pixel should be false");
}

#[test]
fn test_screen_memory_word_layout() {
    let mut net = Net::new();
    let mut screen = ScreenChip::new(&mut net);

    // Test that pixels are packed correctly into memory words
    // Set all 16 pixels in the first word
    for x in 0..16 {
        ScreenChip::set_pixel(&mut screen, x, 0, true);
    }

    // The first memory word should be 0xFFFF
    let first_word = screen.memory().get(0);
    assert_eq!(first_word, 0xFFFF, "First word should have all 16 bits set");

    // Test specific bit patterns
    ScreenChip::clear_screen(&mut screen);
    ScreenChip::set_pixel(&mut screen, 1, 0, true);  // Bit 1
    ScreenChip::set_pixel(&mut screen, 8, 0, true);  // Bit 8
    ScreenChip::set_pixel(&mut screen, 15, 0, true); // Bit 15

    let word_value = screen.memory().get(0);
    let expected = (1 << 1) | (1 << 8) | (1 << 15);
    assert_eq!(word_value, expected, "Word should have bits 1, 8, and 15 set");
}

#[test]
fn test_screen_clear_and_fill() {
    let mut net = Net::new();
    let mut screen = ScreenChip::new(&mut net);

    // Set some pixels
    ScreenChip::set_pixel(&mut screen, 100, 100, true);
    ScreenChip::set_pixel(&mut screen, 200, 200, true);
    assert!(ScreenChip::get_pixel(&screen, 100, 100));

    // Clear screen
    ScreenChip::clear_screen(&mut screen);
    assert!(!ScreenChip::get_pixel(&screen, 100, 100), "Pixel should be cleared");
    assert!(!ScreenChip::get_pixel(&screen, 200, 200), "Pixel should be cleared");

    // Verify all memory is cleared
    for address in 0..SCREEN_SIZE {
        assert_eq!(screen.memory().get(address), 0, "Memory[{}] should be 0", address);
    }

    // Fill screen
    ScreenChip::fill_screen(&mut screen);
    assert!(ScreenChip::get_pixel(&screen, 100, 100), "Pixel should be set");
    assert!(ScreenChip::get_pixel(&screen, 200, 200), "Pixel should be set");
    assert!(ScreenChip::get_pixel(&screen, 0, 0), "Corner pixel should be set");
    assert!(ScreenChip::get_pixel(&screen, 511, 255), "Corner pixel should be set");

    // Verify all memory is filled
    for address in 0..SCREEN_SIZE {
        assert_eq!(screen.memory().get(address), 0xFFFF, "Memory[{}] should be 0xFFFF", address);
    }
}

#[test]
fn test_screen_address_masking() {
    let mut net = Net::new();
    let mut screen = ScreenChip::new(&mut net);

    // Test that addresses are properly masked to 13 bits
    // Address 8192 (0b10000000000000) should be masked to 0 (0b0000000000000)
    net.set_bus_voltage(screen.get_pin("address").unwrap(), 8192);
    net.set_bus_voltage(screen.get_pin("in").unwrap(), 0x9999);
    net.pull(screen.get_pin("load").unwrap(), HIGH, None).unwrap();

    screen.tick(&mut net, HIGH).unwrap();
    screen.tock(&mut net, LOW).unwrap();

    // Check that value was written to address 0 (8192 & 0b1111111111111 = 0)
    net.set_bus_voltage(screen.get_pin("address").unwrap(), 0);
    net.pull(screen.get_pin("load").unwrap(), LOW, None).unwrap();
    screen.eval(&mut net).unwrap();
    let output = net.bus_voltage(screen.get_pin("out").unwrap());
    assert_eq!(output, 0x9999, "Address 8192 should be masked to 0");
}
