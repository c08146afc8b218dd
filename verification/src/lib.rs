use vstd::prelude::*;

pub mod cpu;
pub mod display;
pub mod error;
pub mod kbd;
pub mod laws;
pub mod memory;

use crate::cpu::initial_cpu;
use crate::cpu::Cpu;
use crate::display::blank_display;
use crate::display::Display;
use crate::error::Chip8Error;
use crate::kbd::Keyboard;
use crate::memory::initial_mem;
use crate::memory::loaded_mem;
use crate::memory::Memory;

verus! {

/// One complete virtual machine: the interpreter plus the three state
/// stores it drives. The host hands the components to `Cpu::cycle` by
/// reference once per tick and reads the queries afterwards.
pub struct Chip8 {
    pub memory: Memory,
    pub display: Display,
    pub kbd: Keyboard,
    pub cpu: Cpu,
}

impl Chip8 {
    pub fn new() -> (machine: Chip8)
        ensures
            machine.memory.wf(),
            machine.memory@ == initial_mem(),
            machine.display.wf(),
            machine.display@ == blank_display(),
            machine.kbd.wf(),
            forall|k: int| 0 <= k < 16 ==> !machine.kbd@[k],
            machine.cpu@.wf(),
            machine.cpu@ == initial_cpu(),
    {
        Chip8 {
            memory: Memory::new(),
            display: Display::new(),
            kbd: Keyboard::new(),
            cpu: Cpu::new(),
        }
    }

    /// Copy a program image into memory at 0x200; refused, with nothing
    /// written, if it does not fit below the end of the address space.
    pub fn load(&mut self, rom: &[u8]) -> (r: Result<(), Chip8Error>)
        requires
            old(self).memory.wf(),
        ensures
            final(self).memory.wf(),
            final(self).display == old(self).display,
            final(self).kbd == old(self).kbd,
            final(self).cpu == old(self).cpu,
            rom@.len() <= 0xE00 ==> r == Ok::<(), Chip8Error>(()) && final(self).memory@
                == loaded_mem(old(self).memory@, rom@),
            rom@.len() > 0xE00 ==> r == Err::<(), Chip8Error>(Chip8Error::ProgramTooLarge)
                && final(self).memory@ == old(self).memory@,
    {
        self.memory.load_rom(rom)
    }
}

} // verus!
