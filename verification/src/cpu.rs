use vstd::prelude::*;

use crate::display::blank_display;
use crate::display::draw_collision;
use crate::display::draw_post;
use crate::display::Display;
use crate::error::Chip8Error;
use crate::kbd::key_down;
use crate::kbd::Keyboard;
use crate::memory::word_at;
use crate::memory::Memory;

verus! {

/// The interpreter's register state: sixteen 8-bit general registers (V0..VF,
/// the last doubling as the carry/borrow/collision flag), the 16-bit index
/// register, the program counter, the 16-slot return stack with its depth,
/// the redraw request flag and the two 8-bit timers.
#[verifier::ext_equal]
pub ghost struct CpuView {
    pub v: Seq<u8>,
    pub i: u16,
    pub pc: u16,
    pub stack: Seq<u16>,
    pub sp: nat,
    pub needs_redraw: bool,
    pub delay: u8,
    pub sound: u8,
}

impl CpuView {
    /// Validity: full register file and stack, depth within bounds, and every
    /// live return address low enough that returning to it can fetch a word.
    pub open spec fn wf(self) -> bool {
        self.v.len() == 16 && self.stack.len() == 16 && self.sp <= 16 && (forall|k: int|
            0 <= k < self.sp ==> self.stack[k] <= 0xFFE)
    }
}

/// Register state at power-on: everything zero but for the program counter,
/// which starts at the program load address 0x200, and an initial redraw
/// request for the blank screen.
pub open spec fn initial_cpu() -> CpuView {
    CpuView {
        v: Seq::new(16, |k: int| 0u8),
        i: 0,
        pc: 0x200,
        stack: Seq::new(16, |k: int| 0u16),
        sp: 0,
        needs_redraw: true,
        delay: 0,
        sound: 0,
    }
}

/// What one instruction leaves behind: the registers, the memory, the pixel
/// grid, and whether the instruction was executed or refused with an error.
/// On an error nothing changes.
#[verifier::ext_equal]
pub ghost struct StepOutcome {
    pub cpu: CpuView,
    pub mem: Seq<u8>,
    pub disp: Seq<bool>,
    pub res: Result<(), Chip8Error>,
}

/// 16-bit wraparound addition.
pub open spec fn add16(a: int, b: int) -> u16 {
    ((a + b) % 0x10000) as u16
}

/// 8-bit wraparound addition.
pub open spec fn wrap_add8(a: u8, b: u8) -> u8 {
    ((a + b) % 256) as u8
}

/// 8-bit wraparound subtraction.
pub open spec fn wrap_sub8(a: u8, b: u8) -> u8 {
    if a >= b {
        (a - b) as u8
    } else {
        (a + 256 - b) as u8
    }
}

/// 8-bit left shift by one, the high bit falling off.
pub open spec fn wrap_shl1(b: u8) -> u8 {
    ((2 * b) % 256) as u8
}

pub open spec fn flag(b: bool) -> u8 {
    if b {
        1u8
    } else {
        0u8
    }
}

/// One timer tick: decrement, floored at zero.
pub open spec fn tick(t: u8) -> u8 {
    if t > 0 {
        (t - 1) as u8
    } else {
        0u8
    }
}

/// Memory after the block store: registers V0..Vx (inclusive) copied to
/// addresses `i..i + x`; everything else untouched.
pub open spec fn store_regs(mem: Seq<u8>, i: int, v: Seq<u8>, x: int) -> Seq<u8> {
    Seq::new(mem.len(), |j: int| if i <= j <= i + x { v[j - i] } else { mem[j] })
}

/// Registers after the block load: V0..Vx (inclusive) read back from
/// addresses `i..i + x`; the higher registers keep their values.
pub open spec fn load_regs(v: Seq<u8>, mem: Seq<u8>, i: int, x: int) -> Seq<u8> {
    Seq::new(16, |j: int| if 0 <= j <= x { mem[i + j] } else { v[j] })
}

pub open spec fn ok_step(cpu: CpuView, mem: Seq<u8>, disp: Seq<bool>) -> StepOutcome {
    StepOutcome { cpu, mem, disp, res: Ok(()) }
}

pub open spec fn fail_step(
    cpu: CpuView,
    mem: Seq<u8>,
    disp: Seq<bool>,
    e: Chip8Error,
) -> StepOutcome {
    StepOutcome { cpu, mem, disp, res: Err(e) }
}

/// The arithmetic/logic group 8xy?: every operation reads Vy (and Vx), and
/// the three flag-setting forms write the flag after the result, so an
/// operation aimed at VF leaves the flag there. The shifts read and write Vy
/// and copy it into Vx, the legacy behaviour this machine preserves.
pub open spec fn alu_step(
    a: CpuView,
    c: CpuView,
    mem: Seq<u8>,
    disp: Seq<bool>,
    x: int,
    y: int,
    op: u16,
) -> StepOutcome {
    let op4: u16 = op % 16;
    let vx: u8 = c.v[x];
    let vy: u8 = c.v[y];
    if op4 == 0 {
        ok_step(CpuView { v: c.v.update(x, vy), ..a }, mem, disp)
    } else if op4 == 1 {
        ok_step(CpuView { v: c.v.update(x, vx | vy), ..a }, mem, disp)
    } else if op4 == 2 {
        ok_step(CpuView { v: c.v.update(x, vx & vy), ..a }, mem, disp)
    } else if op4 == 3 {
        ok_step(CpuView { v: c.v.update(x, vx ^ vy), ..a }, mem, disp)
    } else if op4 == 4 {
        ok_step(
            CpuView { v: c.v.update(x, wrap_add8(vx, vy)).update(15, flag(vx + vy > 255)), ..a },
            mem,
            disp,
        )
    } else if op4 == 5 {
        ok_step(
            CpuView { v: c.v.update(x, wrap_sub8(vx, vy)).update(15, flag(vx >= vy)), ..a },
            mem,
            disp,
        )
    } else if op4 == 6 {
        let v1 = c.v.update(15, vy % 2);
        let v2 = v1.update(y, v1[y] / 2);
        ok_step(CpuView { v: v2.update(x, v2[y]), ..a }, mem, disp)
    } else if op4 == 7 {
        ok_step(
            CpuView { v: c.v.update(x, wrap_sub8(vy, vx)).update(15, flag(vy >= vx)), ..a },
            mem,
            disp,
        )
    } else if op4 == 0xE {
        let v1 = c.v.update(15, vy / 128);
        let v2 = v1.update(y, wrap_shl1(v1[y]));
        ok_step(CpuView { v: v2.update(x, v2[y]), ..a }, mem, disp)
    } else {
        fail_step(c, mem, disp, Chip8Error::UnknownOpcode(op))
    }
}

/// The Fx?? group: timers, index arithmetic, glyph lookup, binary-coded
/// decimal, the register block transfers and the key wait.
pub open spec fn fx_step(
    a: CpuView,
    c: CpuView,
    mem: Seq<u8>,
    disp: Seq<bool>,
    keys: Seq<bool>,
    x: int,
    op: u16,
) -> StepOutcome {
    let op3: u16 = (op / 16) % 16;
    let op4: u16 = op % 16;
    let vx: u8 = c.v[x];
    if op3 == 0 && op4 == 7 {
        ok_step(CpuView { v: c.v.update(x, c.delay), ..a }, mem, disp)
    } else if op3 == 0 && op4 == 0xA {
        // wait for key Vx: rewind so this instruction is fetched again
        // next cycle, until the key is down
        if key_down(keys, vx) {
            ok_step(a, mem, disp)
        } else {
            ok_step(CpuView { pc: c.pc, ..a }, mem, disp)
        }
    } else if op3 == 1 && op4 == 5 {
        ok_step(CpuView { delay: vx, ..a }, mem, disp)
    } else if op3 == 1 && op4 == 8 {
        ok_step(CpuView { sound: vx, ..a }, mem, disp)
    } else if op3 == 1 && op4 == 0xE {
        ok_step(CpuView { i: add16(c.i as int, vx as int), ..a }, mem, disp)
    } else if op3 == 2 && op4 == 9 {
        ok_step(CpuView { i: (5 * vx) as u16, ..a }, mem, disp)
    } else if op3 == 3 && op4 == 3 {
        if c.i as int + 2 >= 4096 {
            fail_step(c, mem, disp, Chip8Error::MemoryOutOfBounds)
        } else {
            let m1 = mem.update(c.i as int, vx / 100);
            let m2 = m1.update(c.i as int + 1, vx % 100 / 10);
            ok_step(a, m2.update(c.i as int + 2, vx % 10), disp)
        }
    } else if op3 == 5 && op4 == 5 {
        if c.i as int + x >= 4096 {
            fail_step(c, mem, disp, Chip8Error::MemoryOutOfBounds)
        } else {
            ok_step(a, store_regs(mem, c.i as int, c.v, x), disp)
        }
    } else if op3 == 6 && op4 == 5 {
        if c.i as int + x >= 4096 {
            fail_step(c, mem, disp, Chip8Error::MemoryOutOfBounds)
        } else {
            ok_step(CpuView { v: load_regs(c.v, mem, c.i as int, x), ..a }, mem, disp)
        }
    } else {
        fail_step(c, mem, disp, Chip8Error::UnknownOpcode(op))
    }
}

/// The effect of the already fetched instruction word `op`. The baseline
/// state `a` has the program counter advanced by 2 and the redraw request
/// cleared; each instruction then applies its own effect, jumps and skips
/// overriding the program counter. On any refused instruction the original
/// state `c` is returned untouched together with the error.
pub open spec fn op_step(
    c: CpuView,
    mem: Seq<u8>,
    disp: Seq<bool>,
    keys: Seq<bool>,
    rnd: u8,
    op: u16,
) -> StepOutcome {
    let a = CpuView { pc: (c.pc + 2) as u16, needs_redraw: false, ..c };
    let op1: u16 = op / 0x1000;
    let op4: u16 = op % 16;
    let x: int = ((op / 0x100) % 16) as int;
    let y: int = ((op / 16) % 16) as int;
    let vx: u8 = c.v[x];
    let vy: u8 = c.v[y];
    let nnn: u16 = op % 0x1000;
    let kk: u8 = (op % 256) as u8;
    let n: u16 = op % 16;
    if op == 0x00E0 {
        // clear screen
        ok_step(CpuView { needs_redraw: true, ..a }, mem, blank_display())
    } else if op == 0x00EE {
        // return: pop the call-site address and resume just after it
        if c.sp == 0 {
            fail_step(c, mem, disp, Chip8Error::StackUnderflow)
        } else {
            ok_step(
                CpuView { pc: add16(c.stack[c.sp - 1] as int, 2), sp: (c.sp - 1) as nat, ..a },
                mem,
                disp,
            )
        }
    } else if op1 == 0 {
        // legacy system call: no-op
        ok_step(a, mem, disp)
    } else if op1 == 1 {
        ok_step(CpuView { pc: nnn, ..a }, mem, disp)
    } else if op1 == 2 {
        // call: push the address of this instruction
        if c.sp == 16 {
            fail_step(c, mem, disp, Chip8Error::StackOverflow)
        } else {
            ok_step(
                CpuView {
                    stack: c.stack.update(c.sp as int, c.pc),
                    sp: (c.sp + 1) as nat,
                    pc: nnn,
                    ..a
                },
                mem,
                disp,
            )
        }
    } else if op1 == 3 {
        ok_step(CpuView { pc: if vx == kk { add16(c.pc as int, 4) } else { a.pc }, ..a }, mem, disp)
    } else if op1 == 4 {
        ok_step(CpuView { pc: if vx != kk { add16(c.pc as int, 4) } else { a.pc }, ..a }, mem, disp)
    } else if op1 == 5 {
        if op4 == 0 {
            ok_step(
                CpuView { pc: if vx == vy { add16(c.pc as int, 4) } else { a.pc }, ..a },
                mem,
                disp,
            )
        } else {
            fail_step(c, mem, disp, Chip8Error::UnknownOpcode(op))
        }
    } else if op1 == 6 {
        ok_step(CpuView { v: c.v.update(x, kk), ..a }, mem, disp)
    } else if op1 == 7 {
        ok_step(CpuView { v: c.v.update(x, wrap_add8(vx, kk)), ..a }, mem, disp)
    } else if op1 == 8 {
        alu_step(a, c, mem, disp, x, y, op)
    } else if op1 == 9 {
        if op4 == 0 {
            ok_step(
                CpuView { pc: if vx != vy { add16(c.pc as int, 4) } else { a.pc }, ..a },
                mem,
                disp,
            )
        } else {
            fail_step(c, mem, disp, Chip8Error::UnknownOpcode(op))
        }
    } else if op1 == 0xA {
        ok_step(CpuView { i: nnn, ..a }, mem, disp)
    } else if op1 == 0xB {
        ok_step(CpuView { pc: (nnn + c.v[0]) as u16, ..a }, mem, disp)
    } else if op1 == 0xC {
        ok_step(CpuView { v: c.v.update(x, rnd & kk), ..a }, mem, disp)
    } else if op1 == 0xD {
        // draw the n-byte sprite at memory[i..i+n] at (Vx, Vy)
        if c.i as int + n >= 4097 {
            fail_step(c, mem, disp, Chip8Error::MemoryOutOfBounds)
        } else {
            let sprite = mem.subrange(c.i as int, c.i as int + n);
            ok_step(
                CpuView {
                    v: c.v.update(15, flag(draw_collision(disp, vx, vy, sprite))),
                    needs_redraw: true,
                    ..a
                },
                mem,
                draw_post(disp, vx, vy, sprite),
            )
        }
    } else if op1 == 0xE {
        let op3: u16 = (op / 16) % 16;
        if op3 == 9 && op4 == 0xE {
            ok_step(
                CpuView { pc: if key_down(keys, vx) { add16(c.pc as int, 4) } else { a.pc }, ..a },
                mem,
                disp,
            )
        } else if op3 == 0xA && op4 == 1 {
            ok_step(
                CpuView { pc: if !key_down(keys, vx) { add16(c.pc as int, 4) } else { a.pc }, ..a },
                mem,
                disp,
            )
        } else {
            fail_step(c, mem, disp, Chip8Error::UnknownOpcode(op))
        }
    } else {
        fx_step(a, c, mem, disp, keys, x, op)
    }
}

/// One full interpreter step: fetch the big-endian word at the program
/// counter (refused if the fetch would leave the address space), then
/// execute it with `rnd` as the random byte a Cxkk instruction masks.
pub open spec fn step_spec(
    c: CpuView,
    mem: Seq<u8>,
    disp: Seq<bool>,
    keys: Seq<bool>,
    rnd: u8,
) -> StepOutcome {
    if c.pc as int + 1 >= 4096 {
        fail_step(c, mem, disp, Chip8Error::MemoryOutOfBounds)
    } else {
        op_step(c, mem, disp, keys, rnd, word_at(mem, c.pc))
    }
}

/// Relies on rand::random: draws one byte from the thread-local generator.
/// Nothing is assumed about its value.
#[verifier::external_body]
fn random_byte() -> u8 {
    rand::random::<u8>()
}

/// The instruction interpreter. Executes at most one instruction per
/// `cycle` call; timers advance only through `update_timers`, so the host
/// controls both rates independently.
pub struct Cpu {
    v: Vec<u8>,
    i: u16,
    pc: u16,
    stack: Vec<u16>,
    sp: usize,
    needs_redraw: bool,
    delay_timer: u8,
    sound_timer: u8,
}

impl View for Cpu {
    type V = CpuView;

    closed spec fn view(&self) -> CpuView {
        CpuView {
            v: self.v@,
            i: self.i,
            pc: self.pc,
            stack: self.stack@,
            sp: self.sp as nat,
            needs_redraw: self.needs_redraw,
            delay: self.delay_timer,
            sound: self.sound_timer,
        }
    }
}

impl Cpu {
    pub fn new() -> (cpu: Cpu)
        ensures
            cpu@.wf(),
            cpu@ == initial_cpu(),
    {
        let mut v: Vec<u8> = Vec::new();
        let mut stack: Vec<u16> = Vec::new();
        let mut k: usize = 0;
        while k < 16
            invariant
                v@.len() == k,
                stack@.len() == k,
                k <= 16,
                forall|j: int| 0 <= j < k ==> v@[j] == 0u8,
                forall|j: int| 0 <= j < k ==> stack@[j] == 0u16,
            decreases 16 - k,
        {
            v.push(0);
            stack.push(0);
            k += 1;
        }
        let cpu = Cpu {
            v,
            i: 0,
            pc: 0x200,
            stack,
            sp: 0,
            needs_redraw: true,
            delay_timer: 0,
            sound_timer: 0,
        };
        proof {
            assert(cpu@.v =~= initial_cpu().v);
            assert(cpu@.stack =~= initial_cpu().stack);
            assert(cpu@ =~= initial_cpu());
        }
        cpu
    }

    /// Execute one instruction, with `rnd` standing in for the random byte:
    /// the outcome is exactly `step_spec` of the starting state.
    #[verifier::rlimit(100)]
    pub fn step_with(
        &mut self,
        rnd: u8,
        memory: &mut Memory,
        display: &mut Display,
        kbd: &Keyboard,
    ) -> (r: Result<(), Chip8Error>)
        requires
            old(self)@.wf(),
            old(memory).wf(),
            old(display).wf(),
            kbd.wf(),
        ensures
            final(self)@.wf(),
            final(memory).wf(),
            final(display).wf(),
            final(self)@ == step_spec(old(self)@, old(memory)@, old(display)@, kbd@, rnd).cpu,
            final(memory)@ == step_spec(old(self)@, old(memory)@, old(display)@, kbd@, rnd).mem,
            final(display)@ == step_spec(old(self)@, old(memory)@, old(display)@, kbd@, rnd).disp,
            r == step_spec(old(self)@, old(memory)@, old(display)@, kbd@, rnd).res,
    {
        let opcode = match memory.read_word(self.pc) {
            Ok(w) => w,
            Err(e) => {
                return Err(e);
            },
        };
        let op1: u16 = opcode / 0x1000;
        let op3: u16 = (opcode / 16) % 16;
        let op4: u16 = opcode % 16;
        let x: usize = ((opcode / 0x100) % 16) as usize;
        let y: usize = ((opcode / 16) % 16) as usize;
        let vx: u8 = self.v[x];
        let vy: u8 = self.v[y];
        let nnn: u16 = opcode % 0x1000;
        let kk: u8 = (opcode % 256) as u8;
        let next_pc: u16 = self.pc + 2;
        if opcode == 0x00E0 {
            display.clear();
            self.pc = next_pc;
            self.needs_redraw = true;
            Ok(())
        } else if opcode == 0x00EE {
            if self.sp == 0 {
                return Err(Chip8Error::StackUnderflow);
            }
            self.sp -= 1;
            self.pc = self.stack[self.sp] + 2;
            self.needs_redraw = false;
            Ok(())
        } else if op1 == 0 {
            self.pc = next_pc;
            self.needs_redraw = false;
            Ok(())
        } else if op1 == 1 {
            self.pc = nnn;
            self.needs_redraw = false;
            Ok(())
        } else if op1 == 2 {
            if self.sp == 16 {
                return Err(Chip8Error::StackOverflow);
            }
            self.stack[self.sp] = self.pc;
            self.sp += 1;
            self.pc = nnn;
            self.needs_redraw = false;
            Ok(())
        } else if op1 == 3 {
            self.pc = if vx == kk {
                next_pc + 2
            } else {
                next_pc
            };
            self.needs_redraw = false;
            Ok(())
        } else if op1 == 4 {
            self.pc = if vx != kk {
                next_pc + 2
            } else {
                next_pc
            };
            self.needs_redraw = false;
            Ok(())
        } else if op1 == 5 {
            if op4 != 0 {
                return Err(Chip8Error::UnknownOpcode(opcode));
            }
            self.pc = if vx == vy {
                next_pc + 2
            } else {
                next_pc
            };
            self.needs_redraw = false;
            Ok(())
        } else if op1 == 6 {
            self.v[x] = kk;
            self.pc = next_pc;
            self.needs_redraw = false;
            Ok(())
        } else if op1 == 7 {
            self.v[x] = ((vx as u16 + kk as u16) % 256) as u8;
            self.pc = next_pc;
            self.needs_redraw = false;
            Ok(())
        } else if op1 == 8 {
            if op4 == 0 {
                self.v[x] = vy;
            } else if op4 == 1 {
                self.v[x] = vx | vy;
            } else if op4 == 2 {
                self.v[x] = vx & vy;
            } else if op4 == 3 {
                self.v[x] = vx ^ vy;
            } else if op4 == 4 {
                let sum: u16 = vx as u16 + vy as u16;
                self.v[x] = (sum % 256) as u8;
                self.v[15] = if sum > 255 {
                    1
                } else {
                    0
                };
            } else if op4 == 5 {
                self.v[x] = if vx >= vy {
                    vx - vy
                } else {
                    ((vx as u16 + 256 - vy as u16)) as u8
                };
                self.v[15] = if vx >= vy {
                    1
                } else {
                    0
                };
            } else if op4 == 6 {
                self.v[15] = vy % 2;
                let shifted: u8 = self.v[y] / 2;
                self.v[y] = shifted;
                self.v[x] = self.v[y];
            } else if op4 == 7 {
                self.v[x] = if vy >= vx {
                    vy - vx
                } else {
                    ((vy as u16 + 256 - vx as u16)) as u8
                };
                self.v[15] = if vy >= vx {
                    1
                } else {
                    0
                };
            } else if op4 == 0xE {
                self.v[15] = vy / 128;
                let shifted: u8 = ((self.v[y] as u16 * 2) % 256) as u8;
                self.v[y] = shifted;
                self.v[x] = self.v[y];
            } else {
                return Err(Chip8Error::UnknownOpcode(opcode));
            }
            self.pc = next_pc;
            self.needs_redraw = false;
            Ok(())
        } else if op1 == 9 {
            if op4 != 0 {
                return Err(Chip8Error::UnknownOpcode(opcode));
            }
            self.pc = if vx != vy {
                next_pc + 2
            } else {
                next_pc
            };
            self.needs_redraw = false;
            Ok(())
        } else if op1 == 0xA {
            self.i = nnn;
            self.pc = next_pc;
            self.needs_redraw = false;
            Ok(())
        } else if op1 == 0xB {
            self.pc = nnn + self.v[0] as u16;
            self.needs_redraw = false;
            Ok(())
        } else if op1 == 0xC {
            self.v[x] = rnd & kk;
            self.pc = next_pc;
            self.needs_redraw = false;
            Ok(())
        } else if op1 == 0xD {
            let n: u16 = opcode % 16;
            if self.i >= 4097 - n {
                return Err(Chip8Error::MemoryOutOfBounds);
            }
            let sprite = match memory.read_range(self.i, self.i + n) {
                Ok(bytes) => bytes,
                Err(_) => {
                    return Err(Chip8Error::MemoryOutOfBounds);
                },
            };
            let collision = display.draw_sprite(vx, vy, sprite);
            self.v[15] = if collision {
                1
            } else {
                0
            };
            self.pc = next_pc;
            self.needs_redraw = true;
            Ok(())
        } else if op1 == 0xE {
            if op3 == 9 && op4 == 0xE {
                self.pc = if kbd.key_pressed(vx) {
                    next_pc + 2
                } else {
                    next_pc
                };
                self.needs_redraw = false;
                Ok(())
            } else if op3 == 0xA && op4 == 1 {
                self.pc = if !kbd.key_pressed(vx) {
                    next_pc + 2
                } else {
                    next_pc
                };
                self.needs_redraw = false;
                Ok(())
            } else {
                return Err(Chip8Error::UnknownOpcode(opcode));
            }
        } else if op3 == 0 && op4 == 7 {
            self.v[x] = self.delay_timer;
            self.pc = next_pc;
            self.needs_redraw = false;
            Ok(())
        } else if op3 == 0 && op4 == 0xA {
            if kbd.key_pressed(vx) {
                self.pc = next_pc;
            }
            self.needs_redraw = false;
            Ok(())
        } else if op3 == 1 && op4 == 5 {
            self.delay_timer = vx;
            self.pc = next_pc;
            self.needs_redraw = false;
            Ok(())
        } else if op3 == 1 && op4 == 8 {
            self.sound_timer = vx;
            self.pc = next_pc;
            self.needs_redraw = false;
            Ok(())
        } else if op3 == 1 && op4 == 0xE {
            let widened: u32 = self.i as u32 + vx as u32;
            self.i = (widened % 0x10000) as u16;
            self.pc = next_pc;
            self.needs_redraw = false;
            Ok(())
        } else if op3 == 2 && op4 == 9 {
            self.i = memory.get_char_addr(vx as u16);
            self.pc = next_pc;
            self.needs_redraw = false;
            Ok(())
        } else if op3 == 3 && op4 == 3 {
            if self.i >= 4094 {
                return Err(Chip8Error::MemoryOutOfBounds);
            }
            let _ = memory.write(self.i, vx / 100);
            let _ = memory.write(self.i + 1, vx % 100 / 10);
            let _ = memory.write(self.i + 2, vx % 10);
            self.pc = next_pc;
            self.needs_redraw = false;
            Ok(())
        } else if op3 == 5 && op4 == 5 {
            if self.i as usize >= 4096 - x {
                return Err(Chip8Error::MemoryOutOfBounds);
            }
            let mut k: usize = 0;
            while k <= x
                invariant
                    x < 16,
                    k <= x + 1,
                    self@ == old(self)@,
                    self@.v.len() == 16,
                    memory@.len() == 4096,
                    self@.i as int + x < 4096,
                    forall|j: int|
                        0 <= j < 4096 && !(self@.i as int <= j < self@.i as int + k)
                            ==> memory@[j] == old(memory)@[j],
                    forall|j: int|
                        self@.i as int <= j < self@.i as int + k ==> memory@[j] == self@.v[j
                            - self@.i as int],
                decreases x + 1 - k,
            {
                let _ = memory.write(self.i + k as u16, self.v[k]);
                k += 1;
            }
            proof {
                assert(memory@ =~= store_regs(old(memory)@, old(self)@.i as int, old(self)@.v,
                x as int));
            }
            self.pc = next_pc;
            self.needs_redraw = false;
            Ok(())
        } else if op3 == 6 && op4 == 5 {
            if self.i as usize >= 4096 - x {
                return Err(Chip8Error::MemoryOutOfBounds);
            }
            let mut k: usize = 0;
            while k <= x
                invariant
                    x < 16,
                    k <= x + 1,
                    memory@ == old(memory)@,
                    memory.wf(),
                    self@.v.len() == 16,
                    old(self)@.v.len() == 16,
                    self@.i == old(self)@.i,
                    self@.pc == old(self)@.pc,
                    self@.stack == old(self)@.stack,
                    self@.sp == old(self)@.sp,
                    self@.needs_redraw == old(self)@.needs_redraw,
                    self@.delay == old(self)@.delay,
                    self@.sound == old(self)@.sound,
                    self@.i as int + x < 4096,
                    forall|j: int|
                        0 <= j < 16 ==> self@.v[j] == (if 0 <= j < k {
                            old(memory)@[old(self)@.i as int + j]
                        } else {
                            old(self)@.v[j]
                        }),
                decreases x + 1 - k,
            {
                let val = match memory.read(self.i + k as u16) {
                    Ok(b) => b,
                    Err(_) => 0,
                };
                self.v[k] = val;
                k += 1;
            }
            proof {
                assert(self@.v =~= load_regs(old(self)@.v, old(memory)@, old(self)@.i as int,
                x as int));
            }
            self.pc = next_pc;
            self.needs_redraw = false;
            Ok(())
        } else {
            Err(Chip8Error::UnknownOpcode(opcode))
        }
    }

    /// Execute one instruction, drawing the random byte from the generator:
    /// the outcome is `step_spec` of the starting state for some byte.
    pub fn cycle(&mut self, memory: &mut Memory, display: &mut Display, kbd: &Keyboard) -> (r:
        Result<(), Chip8Error>)
        requires
            old(self)@.wf(),
            old(memory).wf(),
            old(display).wf(),
            kbd.wf(),
        ensures
            final(self)@.wf(),
            final(memory).wf(),
            final(display).wf(),
            exists|rnd: u8|
                {
                    let s = #[trigger] step_spec(old(self)@, old(memory)@, old(display)@, kbd@,
                    rnd);
                    final(self)@ == s.cpu && final(memory)@ == s.mem && final(display)@ == s.disp
                        && r == s.res
                },
    {
        let rnd = random_byte();
        self.step_with(rnd, memory, display, kbd)
    }

    /// Decrement each timer that is still running; both floor at zero.
    pub fn update_timers(&mut self)
        requires
            old(self)@.wf(),
        ensures
            final(self)@.wf(),
            final(self)@ == (CpuView {
                delay: tick(old(self)@.delay),
                sound: tick(old(self)@.sound),
                ..old(self)@
            }),
    {
        if self.delay_timer > 0 {
            self.delay_timer -= 1;
        }
        if self.sound_timer > 0 {
            self.sound_timer -= 1;
        }
    }

    /// Whether the last executed instruction asked for the screen to be
    /// redrawn.
    pub fn needs_redraw(&self) -> (b: bool)
        ensures
            b == self@.needs_redraw,
    {
        self.needs_redraw
    }

    /// Whether the sound timer is running, i.e. the tone should play.
    pub fn sound_on(&self) -> (b: bool)
        ensures
            b == (self@.sound > 0),
    {
        self.sound_timer > 0
    }

    pub fn reg(&self, r: usize) -> (val: u8)
        requires
            self@.wf(),
            r < 16,
        ensures
            val == self@.v[r as int],
    {
        self.v[r]
    }

    pub fn program_counter(&self) -> (val: u16)
        ensures
            val == self@.pc,
    {
        self.pc
    }

    pub fn index_reg(&self) -> (val: u16)
        ensures
            val == self@.i,
    {
        self.i
    }

    pub fn stack_depth(&self) -> (val: usize)
        ensures
            val == self@.sp,
    {
        self.sp
    }

    pub fn delay_value(&self) -> (val: u8)
        ensures
            val == self@.delay,
    {
        self.delay_timer
    }
}

} // verus!
