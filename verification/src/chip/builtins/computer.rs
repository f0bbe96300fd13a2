use vstd::prelude::*;
use crate::chip::builtins::memory::{spec_get, spec_set, Memory};
use crate::chip::builtins::table::ChipKind;
use crate::chip::chip::{built, Chip};
use crate::chip::clock::Clock;
use crate::chip::model::{has_signature, put_out, ChipView};
use crate::chip::net::Net;
use crate::chip::pin::{HIGH, LOW};
use crate::chip::signal::{same_shape, with_bit};

verus! {

/// The number of words of the screen.
pub const SCREEN_SIZE: usize = 8192;

/// Where the screen starts in the memory map of the computer.
pub const SCREEN_OFFSET: usize = 16384;

/// Where the keyboard lies in the memory map of the computer.
pub const KEYBOARD_OFFSET: usize = 24576;

/// The number of words of the ROM.
pub const ROM_SIZE: usize = 32768;

/// A read-only memory of 32768 words.
#[derive(Debug)]
pub struct Rom32kChip {}

impl Rom32kChip {
    /// Makes the chip, with new buses in `net` for its pins.
    pub fn new(net: &mut Net) -> (chip: Chip)
        requires
            old(net).wf(),
        ensures
            final(net).wf(),
            built(chip@, ChipKind::Rom32k, old(net)@, final(net)@),
            chip.wf(final(net)),
            has_signature(chip@, final(net)@),
    {
        Chip::builtin(net, ChipKind::Rom32k)
    }

    /// Stores `program` from address 0 on; what does not fit is dropped.
    pub fn load_program(chip: &mut Chip, program: &[u16])
        ensures
            final(chip)@ == (ChipView { memory: final(chip)@.memory, ..old(chip)@ }),
            final(chip)@.memory.len() == old(chip)@.memory.len(),
            forall|a: int|
                0 <= a < old(chip)@.memory.len() ==> #[trigger] final(chip)@.memory[a] == (if a
                    < program@.len() && a < ROM_SIZE {
                    program@[a]
                } else {
                    old(chip)@.memory[a]
                }),
    {
        let n: usize = program.len();
        let mut address: usize = 0;
        while address < n
            invariant
                n == program@.len(),
                address <= n,
                chip@ == (ChipView { memory: chip@.memory, ..old(chip)@ }),
                chip@.memory.len() == old(chip)@.memory.len(),
                forall|a: int|
                    0 <= a < old(chip)@.memory.len() ==> #[trigger] chip@.memory[a] == (if a
                        < address && a < ROM_SIZE {
                        program@[a]
                    } else {
                        old(chip)@.memory[a]
                    }),
            decreases n - address,
        {
            if address < ROM_SIZE {
                chip.remember(address, program[address]);
            }
            address += 1;
        }
    }

    /// The memory of the chip.
    pub fn memory(chip: &Chip) -> (r: &Memory)
        ensures
            r@ == chip@.memory,
    {
        chip.memory()
    }

    /// Stores `value` at `address`; a store outside the ROM is dropped.
    pub fn set_memory(chip: &mut Chip, address: usize, value: u16)
        ensures
            final(chip)@ == (ChipView {
                memory: if address < ROM_SIZE {
                    spec_set(old(chip)@.memory, address, value)
                } else {
                    old(chip)@.memory
                },
                ..old(chip)@
            }),
    {
        if address < ROM_SIZE {
            chip.remember(address, value);
        }
    }
}

/// The word of the screen that holds pixel (`x`, `y`): 32 words to a row, 16 pixels to a word.
pub open spec fn pixel_word(x: usize, y: usize) -> usize {
    (y * 32 + x / 16) as usize
}

/// Whether (`x`, `y`) is a pixel of the screen, which has 512 columns and 256 rows.
pub open spec fn on_screen(x: usize, y: usize) -> bool {
    x < 512 && y < 256
}

/// Whether pixel (`x`, `y`) is lit in the screen memory `m`: bit `x mod 16` of its word.
pub open spec fn pixel(m: Seq<u16>, x: usize, y: usize) -> bool {
    on_screen(x, y) && (spec_get(m, pixel_word(x, y)) >> (x % 16)) & 1 == 1
}

/// The screen memory `m` after pixel (`x`, `y`) is lit or put out.
pub open spec fn with_pixel(m: Seq<u16>, x: usize, y: usize, value: bool) -> Seq<u16> {
    if on_screen(x, y) {
        spec_set(
            m,
            pixel_word(x, y),
            with_bit(
                spec_get(m, pixel_word(x, y)),
                (x % 16) as usize,
                if value {
                    HIGH
                } else {
                    LOW
                },
            ),
        )
    } else {
        m
    }
}

/// The screen: a memory of 8192 words, 16 pixels each.
#[derive(Debug)]
pub struct ScreenChip {}

impl ScreenChip {
    /// Makes the chip, with new buses in `net` for its pins.
    pub fn new(net: &mut Net) -> (chip: Chip)
        requires
            old(net).wf(),
        ensures
            final(net).wf(),
            built(chip@, ChipKind::Screen, old(net)@, final(net)@),
            chip.wf(final(net)),
            has_signature(chip@, final(net)@),
    {
        Chip::builtin(net, ChipKind::Screen)
    }

    /// Subscribes the chip to `clock`: the chip then keeps a receiver that
    /// the clock gave it. Pins and what the chip holds stay as they are.
    pub fn subscribe_to_clock(chip: &mut Chip, clock: &Clock)
        ensures
            final(chip)@ == old(chip)@,
            final(chip).receiver() is Some,
    {
        chip.subscribe_to_clock(clock.subscribe());
    }

    /// The memory of the chip.
    pub fn memory(chip: &Chip) -> (r: &Memory)
        ensures
            r@ == chip@.memory,
    {
        chip.memory()
    }

    /// Whether pixel (`x`, `y`) is lit; no pixel outside the screen is.
    pub fn get_pixel(chip: &Chip, x: usize, y: usize) -> (r: bool)
        ensures
            r == pixel(chip@.memory, x, y),
    {
        if x >= 512 || y >= 256 {
            return false;
        }
        let word = chip.memory().get(y * 32 + x / 16);
        (word >> (x % 16)) & 1 == 1
    }

    /// Lights pixel (`x`, `y`) or puts it out; outside the screen nothing happens.
    pub fn set_pixel(chip: &mut Chip, x: usize, y: usize, value: bool)
        ensures
            final(chip)@ == (ChipView {
                memory: with_pixel(old(chip)@.memory, x, y, value),
                ..old(chip)@
            }),
    {
        if x >= 512 || y >= 256 {
            return ;
        }
        let at: usize = y * 32 + x / 16;
        let bit: usize = x % 16;
        let word = chip.memory().get(at);
        let next = if value {
            word | (1u16 << bit)
        } else {
            word & !(1u16 << bit)
        };
        chip.remember(at, next);
    }

    fn paint(chip: &mut Chip, word: u16)
        ensures
            final(chip)@ == (ChipView { memory: final(chip)@.memory, ..old(chip)@ }),
            final(chip)@.memory.len() == old(chip)@.memory.len(),
            forall|a: int|
                0 <= a < old(chip)@.memory.len() ==> #[trigger] final(chip)@.memory[a] == (if a
                    < SCREEN_SIZE {
                    word
                } else {
                    old(chip)@.memory[a]
                }),
    {
        let mut address: usize = 0;
        while address < SCREEN_SIZE
            invariant
                address <= SCREEN_SIZE,
                chip@ == (ChipView { memory: chip@.memory, ..old(chip)@ }),
                chip@.memory.len() == old(chip)@.memory.len(),
                forall|a: int|
                    0 <= a < old(chip)@.memory.len() ==> #[trigger] chip@.memory[a] == (if a
                        < address {
                        word
                    } else {
                        old(chip)@.memory[a]
                    }),
            decreases SCREEN_SIZE - address,
        {
            chip.remember(address, word);
            address += 1;
        }
    }

    /// Puts out every pixel.
    pub fn clear_screen(chip: &mut Chip)
        ensures
            final(chip)@ == (ChipView { memory: final(chip)@.memory, ..old(chip)@ }),
            final(chip)@.memory.len() == old(chip)@.memory.len(),
            forall|a: int|
                0 <= a < old(chip)@.memory.len() ==> #[trigger] final(chip)@.memory[a] == (if a
                    < SCREEN_SIZE {
                    0u16
                } else {
                    old(chip)@.memory[a]
                }),
    {
        Self::paint(chip, 0);
    }

    /// Lights every pixel.
    pub fn fill_screen(chip: &mut Chip)
        ensures
            final(chip)@ == (ChipView { memory: final(chip)@.memory, ..old(chip)@ }),
            final(chip)@.memory.len() == old(chip)@.memory.len(),
            forall|a: int|
                0 <= a < old(chip)@.memory.len() ==> #[trigger] final(chip)@.memory[a] == (if a
                    < SCREEN_SIZE {
                    0xFFFFu16
                } else {
                    old(chip)@.memory[a]
                }),
    {
        Self::paint(chip, 0xFFFF);
    }
}

/// The code of the key for the character `c`: 128 for a newline, 129 for a
/// tab, else the code point cut to 16 bits.
pub open spec fn key_code(c: char) -> u16 {
    if c == '\n' {
        128
    } else if c == '\t' {
        129
    } else {
        ((c as u32) % 0x10000) as u16
    }
}

/// The keyboard: out shows the code of the key that is down.
#[derive(Debug)]
pub struct KeyboardChip {}

impl KeyboardChip {
    /// Makes the chip, with a new bus in `net` for its pin.
    pub fn new(net: &mut Net) -> (chip: Chip)
        requires
            old(net).wf(),
        ensures
            final(net).wf(),
            built(chip@, ChipKind::Keyboard, old(net)@, final(net)@),
            chip.wf(final(net)),
            has_signature(chip@, final(net)@),
    {
        Chip::builtin(net, ChipKind::Keyboard)
    }

    /// The code of the key that is down; 0 for none.
    pub fn get_key(chip: &Chip) -> (r: u16)
        ensures
            r == chip@.state,
    {
        chip.state()
    }

    /// Presses the key with code `key`, and shows it on out at once.
    pub fn set_key(chip: &mut Chip, net: &mut Net, key: u16)
        requires
            old(net).wf(),
            old(chip).wf(old(net)),
            old(chip)@.kind == ChipKind::Keyboard,
        ensures
            final(net).wf(),
            final(chip).wf(final(net)),
            same_shape(old(net)@, final(net)@),
            final(chip)@ == (ChipView { state: key, ..old(chip)@ }),
            final(net)@ == put_out(old(chip)@, old(net)@, key),
    {
        chip.hold(key);
        chip.put(net, key);
    }

    /// Lets the key go.
    pub fn clear_key(chip: &mut Chip, net: &mut Net)
        requires
            old(net).wf(),
            old(chip).wf(old(net)),
            old(chip)@.kind == ChipKind::Keyboard,
        ensures
            final(net).wf(),
            final(chip).wf(final(net)),
            same_shape(old(net)@, final(net)@),
            final(chip)@ == (ChipView { state: 0, ..old(chip)@ }),
            final(net)@ == put_out(old(chip)@, old(net)@, 0),
    {
        Self::set_key(chip, net, 0);
    }

    /// Presses the key for the character `c`.
    pub fn type_char(chip: &mut Chip, net: &mut Net, c: char)
        requires
            old(net).wf(),
            old(chip).wf(old(net)),
            old(chip)@.kind == ChipKind::Keyboard,
        ensures
            final(net).wf(),
            final(chip).wf(final(net)),
            same_shape(old(net)@, final(net)@),
            final(chip)@ == (ChipView { state: key_code(c), ..old(chip)@ }),
            final(net)@ == put_out(old(chip)@, old(net)@, key_code(c)),
    {
        let code: u16 = if c == '\n' {
            128
        } else if c == '\t' {
            129
        } else {
            ((c as u32) % 0x10000) as u16
        };
        Self::set_key(chip, net, code);
    }

    /// Whether a key is down.
    pub fn is_key_pressed(chip: &Chip) -> (r: bool)
        ensures
            r == (chip@.state != 0),
    {
        chip.state() != 0
    }
}

} // verus!
