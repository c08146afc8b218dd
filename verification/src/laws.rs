use vstd::prelude::*;

use crate::cpu::load_regs;
use crate::cpu::step_spec;
use crate::cpu::store_regs;
use crate::cpu::tick;
use crate::cpu::CpuView;
use crate::error::Chip8Error;
use crate::memory::word_at;

verus! {

/// The instructions that replace the program counter after the baseline
/// advance: jumps, calls, returns, the conditional skips, the key skips and
/// the key wait. Every other instruction leaves the baseline advance of 2.
pub open spec fn overrides_pc(op: u16) -> bool {
    let op1: u16 = op / 0x1000;
    let op3: u16 = (op / 16) % 16;
    let op4: u16 = op % 16;
    op == 0x00EE || op1 == 1 || op1 == 2 || op1 == 3 || op1 == 4 || op1 == 5 || op1 == 9 || op1
        == 0xB || op1 == 0xE || (op1 == 0xF && op3 == 0 && op4 == 0xA)
}

/// The program counter advances by exactly 2 on every executed instruction
/// before any instruction-specific override: whenever the fetched word is
/// none of the overriding patterns and the step succeeds, the new program
/// counter is the old one plus 2.
pub proof fn lemma_pc_base_advance(
    c: CpuView,
    mem: Seq<u8>,
    disp: Seq<bool>,
    keys: Seq<bool>,
    rnd: u8,
)
    requires
        step_spec(c, mem, disp, keys, rnd).res == Ok::<(), Chip8Error>(()),
        !overrides_pc(word_at(mem, c.pc)),
    ensures
        step_spec(c, mem, disp, keys, rnd).cpu.pc == c.pc + 2,
{
    assert(c.pc as int + 1 < 4096);
}

/// A call followed by the matching return restores the machine: after 2nnn
/// and then 00EE the program counter is the call-site address plus 2, the
/// stack depth is back to its pre-call value, and the registers are
/// untouched.
#[verifier::rlimit(100)]
pub proof fn lemma_call_return_round_trip(
    c: CpuView,
    mem: Seq<u8>,
    disp: Seq<bool>,
    keys: Seq<bool>,
    r1: u8,
    r2: u8,
)
    requires
        c.wf(),
        c.sp < 16,
        c.pc as int + 1 < 4096,
        word_at(mem, c.pc) / 0x1000 == 2,
        (word_at(mem, c.pc) % 0x1000) as int + 1 < 4096,
        word_at(mem, (word_at(mem, c.pc) % 0x1000)) == 0x00EE,
    ensures
        ({
            let s1 = step_spec(c, mem, disp, keys, r1);
            let s2 = step_spec(s1.cpu, s1.mem, s1.disp, keys, r2);
            s1.res == Ok::<(), Chip8Error>(()) && s2.res == Ok::<(), Chip8Error>(()) && s2.cpu.pc
                == c.pc + 2 && s2.cpu.sp == c.sp && s2.cpu.v == c.v && s2.mem == mem && s2.disp
                == disp
        }),
{
    let op = word_at(mem, c.pc);
    let nnn = op % 0x1000;
    let s1 = step_spec(c, mem, disp, keys, r1);
    assert(s1.res == Ok::<(), Chip8Error>(()));
    assert(s1.cpu.pc == nnn && s1.cpu.sp == c.sp + 1 && s1.cpu.v == c.v);
    assert(s1.cpu.stack == c.stack.update(c.sp as int, c.pc));
    assert(s1.cpu.stack[c.sp as int] == c.pc);
    assert(s1.mem == mem && s1.disp == disp);
    let s2 = step_spec(s1.cpu, s1.mem, s1.disp, keys, r2);
    assert(s2.res == Ok::<(), Chip8Error>(()));
    assert(s2.cpu.pc == c.pc + 2 && s2.cpu.sp == c.sp && s2.cpu.v == c.v);
}

/// The stack depth never silently exceeds 16: a call issued with the stack
/// already full is refused with a reported error and changes nothing.
pub proof fn lemma_call_overflow_reported(
    c: CpuView,
    mem: Seq<u8>,
    disp: Seq<bool>,
    keys: Seq<bool>,
    rnd: u8,
)
    requires
        c.sp == 16,
        c.pc as int + 1 < 4096,
        word_at(mem, c.pc) / 0x1000 == 2,
    ensures
        step_spec(c, mem, disp, keys, rnd).res == Err::<(), Chip8Error>(Chip8Error::StackOverflow),
        step_spec(c, mem, disp, keys, rnd).cpu == c,
        step_spec(c, mem, disp, keys, rnd).mem == mem,
        step_spec(c, mem, disp, keys, rnd).disp == disp,
{
}

/// The register block store/load round-trip: for any bound x, storing
/// V0..Vx at i and reloading from i later — whatever the registers held in
/// between — reproduces the original values exactly, and leaves the
/// registers above Vx as they were before the reload.
pub proof fn lemma_store_load_round_trip(mem: Seq<u8>, i: int, v: Seq<u8>, w: Seq<u8>, x: int)
    requires
        mem.len() == 4096,
        v.len() == 16,
        w.len() == 16,
        0 <= x < 16,
        0 <= i,
        i + x < 4096,
    ensures
        forall|j: int|
            0 <= j <= x ==> #[trigger] load_regs(w, store_regs(mem, i, v, x), i, x)[j] == v[j],
        forall|j: int|
            x < j < 16 ==> #[trigger] load_regs(w, store_regs(mem, i, v, x), i, x)[j] == w[j],
{
}

/// Applying the timer tick n times to a timer that starts at t.
pub open spec fn ticked_n(t: u8, n: nat) -> u8
    decreases n,
{
    if n == 0 {
        t
    } else {
        tick(ticked_n(t, (n - 1) as nat))
    }
}

/// N timer ticks starting from T leave max(T - N, 0): the timers count
/// down one per tick and floor at zero, never wrapping below it.
pub proof fn lemma_timer_floor(t: u8, n: nat)
    ensures
        ticked_n(t, n) == if n <= t {
            (t - n) as u8
        } else {
            0u8
        },
    decreases n,
{
    if n > 0 {
        lemma_timer_floor(t, (n - 1) as nat);
    }
}

} // verus!
