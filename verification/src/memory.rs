use vstd::prelude::*;

use crate::error::Chip8Error;

verus! {

/// The 80 bytes of built-in font glyphs: 16 sprites of 5 bytes each, one per
/// hexadecimal digit, stored from address 0 upward.
pub open spec fn fontset() -> Seq<u8> {
    seq![
        0xF0u8, 0x90, 0x90, 0x90, 0xF0, // 0
        0x20, 0x60, 0x20, 0x20, 0x70, // 1
        0xF0, 0x10, 0xF0, 0x80, 0xF0, // 2
        0xF0, 0x10, 0xF0, 0x10, 0xF0, // 3
        0x90, 0x90, 0xF0, 0x10, 0x10, // 4
        0xF0, 0x80, 0xF0, 0x10, 0xF0, // 5
        0xF0, 0x80, 0xF0, 0x90, 0xF0, // 6
        0xF0, 0x10, 0x20, 0x40, 0x40, // 7
        0xF0, 0x90, 0xF0, 0x90, 0xF0, // 8
        0xF0, 0x90, 0xF0, 0x10, 0xF0, // 9
        0xF0, 0x90, 0xF0, 0x90, 0x90, // A
        0xE0, 0x90, 0xE0, 0x90, 0xE0, // B
        0xF0, 0x80, 0x80, 0x80, 0xF0, // C
        0xE0, 0x90, 0x90, 0x90, 0xE0, // D
        0xF0, 0x80, 0xF0, 0x80, 0xF0, // E
        0xF0, 0x80, 0xF0, 0x80, 0x80, // F
    ]
}

/// Memory contents at power-on: the font glyphs, then zeroes up to 0xFFF.
pub open spec fn initial_mem() -> Seq<u8> {
    Seq::new(4096, |j: int| if j < 80 { fontset()[j] } else { 0u8 })
}

/// Memory contents after a program image `rom` is copied in at 0x200.
pub open spec fn loaded_mem(mem: Seq<u8>, rom: Seq<u8>) -> Seq<u8> {
    Seq::new(mem.len(), |j: int|
        if 0x200 <= j < 0x200 + rom.len() { rom[j - 0x200] } else { mem[j] })
}

/// The big-endian 16-bit word stored at `addr` and `addr + 1`.
pub open spec fn word_at(mem: Seq<u8>, addr: u16) -> u16 {
    ((mem[addr as int] as int) * 256 + (mem[addr as int + 1] as int)) as u16
}

/// The fixed 4096-byte address space: font glyphs at the bottom, the loaded
/// program from 0x200 upward. Every access is bounds-checked and an access
/// outside 0x000..0xFFF is reported as an error, never performed.
pub struct Memory {
    raw: Vec<u8>,
}

impl View for Memory {
    type V = Seq<u8>;

    closed spec fn view(&self) -> Seq<u8> {
        self.raw@
    }
}

impl Memory {
    pub open spec fn wf(&self) -> bool {
        self@.len() == 4096
    }

    pub fn new() -> (mem: Memory)
        ensures
            mem.wf(),
            mem@ == initial_mem(),
    {
        let mut raw: Vec<u8> = vec![
            0xF0u8, 0x90, 0x90, 0x90, 0xF0, // 0
            0x20, 0x60, 0x20, 0x20, 0x70, // 1
            0xF0, 0x10, 0xF0, 0x80, 0xF0, // 2
            0xF0, 0x10, 0xF0, 0x10, 0xF0, // 3
            0x90, 0x90, 0xF0, 0x10, 0x10, // 4
            0xF0, 0x80, 0xF0, 0x10, 0xF0, // 5
            0xF0, 0x80, 0xF0, 0x90, 0xF0, // 6
            0xF0, 0x10, 0x20, 0x40, 0x40, // 7
            0xF0, 0x90, 0xF0, 0x90, 0xF0, // 8
            0xF0, 0x90, 0xF0, 0x10, 0xF0, // 9
            0xF0, 0x90, 0xF0, 0x90, 0x90, // A
            0xE0, 0x90, 0xE0, 0x90, 0xE0, // B
            0xF0, 0x80, 0x80, 0x80, 0xF0, // C
            0xE0, 0x90, 0x90, 0x90, 0xE0, // D
            0xF0, 0x80, 0xF0, 0x80, 0xF0, // E
            0xF0, 0x80, 0xF0, 0x80, 0x80, // F
        ];
        proof {
            assert(raw@ =~= fontset());
        }
        let mut n: usize = 80;
        while n < 4096
            invariant
                raw@.len() == n,
                80 <= n <= 4096,
                forall|j: int| 0 <= j < 80 ==> raw@[j] == fontset()[j],
                forall|j: int| 80 <= j < n ==> raw@[j] == 0u8,
            decreases 4096 - n,
        {
            raw.push(0);
            n += 1;
        }
        proof {
            assert(raw@ =~= initial_mem());
        }
        Memory { raw }
    }

    pub fn load_rom(&mut self, rom: &[u8]) -> (r: Result<(), Chip8Error>)
        requires
            old(self).wf(),
        ensures
            final(self).wf(),
            rom@.len() <= 0xE00 ==> r == Ok::<(), Chip8Error>(())
                && final(self)@ == loaded_mem(old(self)@, rom@),
            rom@.len() > 0xE00 ==> r == Err::<(), Chip8Error>(Chip8Error::ProgramTooLarge)
                && final(self)@ == old(self)@,
    {
        if rom.len() > 0xE00 {
            return Err(Chip8Error::ProgramTooLarge);
        }
        let mut k: usize = 0;
        while k < rom.len()
            invariant
                self@.len() == 4096,
                rom@.len() <= 0xE00,
                k <= rom@.len(),
                forall|j: int| 0 <= j < 4096 && !(0x200 <= j < 0x200 + k) ==> self@[j] == old(self)@[j],
                forall|j: int| 0x200 <= j < 0x200 + k ==> self@[j] == rom@[j - 0x200],
            decreases rom@.len() - k,
        {
            self.raw[0x200 + k] = rom[k];
            k += 1;
        }
        proof {
            assert(self@ =~= loaded_mem(old(self)@, rom@));
        }
        Ok(())
    }

    pub fn read(&self, address: u16) -> (r: Result<u8, Chip8Error>)
        requires
            self.wf(),
        ensures
            address < 4096 ==> r == Ok::<u8, Chip8Error>(self@[address as int]),
            address >= 4096 ==> r == Err::<u8, Chip8Error>(Chip8Error::MemoryOutOfBounds),
    {
        if address < 4096 {
            Ok(self.raw[address as usize])
        } else {
            Err(Chip8Error::MemoryOutOfBounds)
        }
    }

    pub fn read_word(&self, address: u16) -> (r: Result<u16, Chip8Error>)
        requires
            self.wf(),
        ensures
            address as int + 1 < 4096 ==> r == Ok::<u16, Chip8Error>(word_at(self@, address)),
            address as int + 1 >= 4096 ==> r == Err::<u16, Chip8Error>(Chip8Error::MemoryOutOfBounds),
    {
        if address < 4095 {
            let hi = self.raw[address as usize];
            let lo = self.raw[address as usize + 1];
            Ok((hi as u16) * 256 + (lo as u16))
        } else {
            Err(Chip8Error::MemoryOutOfBounds)
        }
    }

    pub fn read_range(&self, start: u16, end: u16) -> (r: Result<Vec<u8>, Chip8Error>)
        requires
            self.wf(),
        ensures
            start <= end && end <= 4096 ==> (r matches Ok(bytes)
                && bytes@ == self@.subrange(start as int, end as int)),
            !(start <= end && end <= 4096) ==> r == Err::<Vec<u8>, Chip8Error>(Chip8Error::MemoryOutOfBounds),
    {
        if start <= end && end <= 4096 {
            let mut bytes: Vec<u8> = Vec::new();
            let mut k: usize = start as usize;
            while k < end as usize
                invariant
                    start <= end <= 4096,
                    self@.len() == 4096,
                    start as int <= k <= end as int,
                    bytes@ =~= self@.subrange(start as int, k as int),
                decreases end as int - k,
            {
                bytes.push(self.raw[k]);
                k += 1;
            }
            proof {
                assert(bytes@ =~= self@.subrange(start as int, end as int));
            }
            Ok(bytes)
        } else {
            Err(Chip8Error::MemoryOutOfBounds)
        }
    }

    pub fn write(&mut self, address: u16, val: u8) -> (r: Result<(), Chip8Error>)
        requires
            old(self).wf(),
        ensures
            final(self).wf(),
            address < 4096 ==> r == Ok::<(), Chip8Error>(())
                && final(self)@ == old(self)@.update(address as int, val),
            address >= 4096 ==> r == Err::<(), Chip8Error>(Chip8Error::MemoryOutOfBounds)
                && final(self)@ == old(self)@,
    {
        if address < 4096 {
            self.raw[address as usize] = val;
            Ok(())
        } else {
            Err(Chip8Error::MemoryOutOfBounds)
        }
    }

    /// Address of the built-in 5-byte glyph sprite for `index`.
    pub fn get_char_addr(&self, index: u16) -> (addr: u16)
        requires
            5 * (index as int) <= 0xFFFF,
        ensures
            addr == 5 * index,
    {
        index * 5
    }
}

} // verus!
