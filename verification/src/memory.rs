use vstd::prelude::*;

use crate::errors::ChipError;

verus! {

/// Number of addressable bytes of machine memory.
pub const RAM_SIZE: usize = 4096;

/// First address at which program code is placed; everything below is
/// reserved for interpreter data.
pub const PROGRAM_START: usize = 512;

/// Largest loadable program image: the bytes from `PROGRAM_START` to the end
/// of memory.
pub const MAX_ROM_SIZE: usize = 3584;

/// The machine memory: a flat, byte-addressable store of `RAM_SIZE` cells.
pub struct ChipMemory {
    /// The memory cells.
    pub ram: Vec<u8>,
    /// The fixed offset at which program code is loaded.
    pub start: usize,
}

impl View for ChipMemory {
    type V = Seq<u8>;

    open spec fn view(&self) -> Seq<u8> {
        self.ram@
    }
}

/// The ASCII code of the lowercase hex digit for a value below 16.
pub open spec fn hex_digit(v: u8) -> u8 {
    if v < 10 {
        (48 + v) as u8
    } else {
        (87 + v) as u8
    }
}

/// The text a memory dump devotes to cell `i`: a space before every pair of
/// cells, a line break before every group of sixteen pairs, then the cell's
/// two hex digits.
pub open spec fn dump_chunk(ram: Seq<u8>, i: int) -> Seq<u8> {
    let hex = seq![hex_digit(ram[i] / 16), hex_digit(ram[i] % 16)];
    if i % 32 == 0 {
        seq![32u8, 10u8] + hex
    } else if i % 2 == 0 {
        seq![32u8] + hex
    } else {
        hex
    }
}

/// The dump text for the first `n` cells.
pub open spec fn dump_prefix(ram: Seq<u8>, n: int) -> Seq<u8>
    decreases n,
{
    if n <= 0 {
        Seq::empty()
    } else {
        dump_prefix(ram, n - 1) + dump_chunk(ram, n - 1)
    }
}

/// What loading a program image does to memory: the image is copied to
/// `PROGRAM_START` onward, everything else is kept; an image larger than
/// `MAX_ROM_SIZE` is refused outright.
pub open spec fn load_result(ram: Seq<u8>, rom: Seq<u8>) -> Result<Seq<u8>, ChipError> {
    if rom.len() <= MAX_ROM_SIZE {
        Ok(
            Seq::new(
                ram.len(),
                |i: int|
                    if PROGRAM_START <= i < PROGRAM_START + rom.len() {
                        rom[i - PROGRAM_START]
                    } else {
                        ram[i]
                    },
            ),
        )
    } else {
        Err(ChipError::RomTooLarge)
    }
}

impl ChipMemory {
    /// A well-formed memory holds exactly `RAM_SIZE` cells and places
    /// programs at `PROGRAM_START`.
    pub open spec fn wf(&self) -> bool {
        &&& self@.len() == RAM_SIZE
        &&& self.start == PROGRAM_START
    }

    /// Fresh memory: every cell zero.
    pub fn init() -> (m: ChipMemory)
        ensures
            m.wf(),
            forall|i: int| 0 <= i < RAM_SIZE ==> m@[i] == 0u8,
    {
        let mut ram: Vec<u8> = Vec::new();
        while ram.len() < RAM_SIZE
            invariant
                ram@.len() <= RAM_SIZE,
                forall|i: int| 0 <= i < ram@.len() ==> ram@[i] == 0u8,
            decreases RAM_SIZE - ram@.len(),
        {
            ram.push(0);
        }
        ChipMemory { ram, start: PROGRAM_START }
    }

    /// Copy a program image into memory at `PROGRAM_START`. An image longer
    /// than `MAX_ROM_SIZE` is refused with `RomTooLarge` and memory is left
    /// untouched.
    pub fn load_bytes(&mut self, rom: Vec<u8>) -> (result: Result<(), ChipError>)
        requires
            old(self).wf(),
        ensures
            final(self).wf(),
            rom@.len() <= MAX_ROM_SIZE ==> result is Ok,
            rom@.len() > MAX_ROM_SIZE ==> result == Err::<(), ChipError>(ChipError::RomTooLarge),
            (match load_result(old(self)@, rom@) {
                Ok(m) => final(self)@ == m,
                Err(_) => final(self)@ == old(self)@,
            }),
    {
        if rom.len() > MAX_ROM_SIZE {
            return Err(ChipError::RomTooLarge);
        }
        let len = rom.len();
        let mut i: usize = 0;
        while i < len
            invariant
                old(self).wf(),
                self.wf(),
                self.start == old(self).start,
                i <= len,
                len == rom@.len() <= MAX_ROM_SIZE,
                forall|k: int|
                    0 <= k < RAM_SIZE ==> self@[k] == (if PROGRAM_START <= k < PROGRAM_START + i {
                        rom@[k - PROGRAM_START]
                    } else {
                        old(self)@[k]
                    }),
            decreases len - i,
        {
            self.ram.set(i + PROGRAM_START, rom[i]);
            i = i + 1;
        }
        proof {
            assert(self@ =~= load_result(old(self)@, rom@)->Ok_0);
        }
        Ok(())
    }

    /// Write one byte; an address outside memory is refused with
    /// `OutOfBounds` and nothing changes.
    pub fn set_byte(&mut self, loc: u16, val: u8) -> (result: Result<(), ChipError>)
        requires
            old(self).wf(),
        ensures
            final(self).wf(),
            loc < RAM_SIZE ==> result is Ok && final(self)@ == old(self)@.update(loc as int, val),
            loc >= RAM_SIZE ==> result == Err::<(), ChipError>(ChipError::OutOfBounds)
                && final(self)@ == old(self)@,
    {
        if (loc as usize) < RAM_SIZE {
            self.ram.set(loc as usize, val);
            Ok(())
        } else {
            Err(ChipError::OutOfBounds)
        }
    }

    /// The lowercase hex digit for a value below 16.
    fn hex_char(v: u8) -> (c: u8)
        requires
            v < 16,
        ensures
            c == hex_digit(v),
    {
        if v < 10 {
            48 + v
        } else {
            87 + v
        }
    }

    /// The whole memory as hex text, two cells to a group, sixteen groups
    /// to a line: a diagnostic view, ready for a host to print.
    pub fn dump_ram(&self) -> (text: Vec<u8>)
        requires
            self.wf(),
        ensures
            text@ == dump_prefix(self@, RAM_SIZE as int),
    {
        let mut text: Vec<u8> = Vec::new();
        let mut i: usize = 0;
        while i < RAM_SIZE
            invariant
                self.wf(),
                i <= RAM_SIZE,
                text@ == dump_prefix(self@, i as int),
            decreases RAM_SIZE - i,
        {
            if i % 32 == 0 {
                text.push(32);
                text.push(10);
            } else if i % 2 == 0 {
                text.push(32);
            }
            let b = self.ram[i];
            text.push(Self::hex_char(b / 16));
            text.push(Self::hex_char(b % 16));
            i = i + 1;
            proof {
                assert(text@ =~= dump_prefix(self@, i as int));
            }
        }
        text
    }

    /// Read one byte; an address outside memory is refused with
    /// `OutOfBounds`.
    pub fn get_byte(&self, loc: u16) -> (result: Result<u8, ChipError>)
        requires
            self.wf(),
        ensures
            loc < RAM_SIZE ==> result == Ok::<u8, ChipError>(self@[loc as int]),
            loc >= RAM_SIZE ==> result == Err::<u8, ChipError>(ChipError::OutOfBounds),
    {
        if (loc as usize) < RAM_SIZE {
            Ok(self.ram[loc as usize])
        } else {
            Err(ChipError::OutOfBounds)
        }
    }
}

} // verus!
