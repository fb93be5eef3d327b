//! The trap table and the trap handlers.
use vstd::prelude::*;
use crate::cpu::{MachineView, RegBank};
use crate::memory::{read_spec, MemView, Memory};
use crate::reference::{Signal, REG};

verus! {

/// A trap handler.
#[derive(Debug, Clone, Copy, PartialEq, Eq, Structural)]
pub enum Trap {
    /// Wait for one byte of input and put it in R0.
    Getc,
    /// Write the low byte of R0.
    Out,
    /// Write the string of one character per word that R0 points to; the
    /// reading stops at a zero byte, or after the whole address space.
    Puts,
    /// Write a prompt, then behave as `Getc`.
    In,
    /// Write the string of two characters per word that R0 points to, low
    /// byte first; the reading stops as PUTS does.
    Putsp,
    /// Stop the program.
    Halt,
}

/// The handler of each trap vector.
pub open spec fn standard_trap(vector: u8) -> Option<Trap> {
    if vector == 0x20 {
        Some(Trap::Getc)
    } else if vector == 0x21 {
        Some(Trap::Out)
    } else if vector == 0x22 {
        Some(Trap::Puts)
    } else if vector == 0x23 {
        Some(Trap::In)
    } else if vector == 0x24 {
        Some(Trap::Putsp)
    } else if vector == 0x25 {
        Some(Trap::Halt)
    } else {
        None
    }
}

/// The prompt that the IN trap writes: "Input: ".
pub open spec fn prompt() -> Seq<u8> {
    seq![73u8, 110u8, 112u8, 117u8, 116u8, 58u8, 32u8]
}

/// The address after `ptr`, wrapping past the last one.
pub open spec fn next_address(ptr: u16) -> u16 {
    ((ptr as int + 1) % 0x10000) as u16
}

/// What PUTS reads from `ptr` on: the memory after at most `fuel` reads, and
/// the characters before the first zero byte.
pub open spec fn puts_spec(m: MemView, ptr: u16, fuel: nat) -> (MemView, Seq<u8>)
    decreases fuel,
{
    if fuel == 0 {
        (m, Seq::empty())
    } else {
        let (m1, w) = read_spec(m, ptr);
        if w as u8 == 0 {
            (m1, Seq::empty())
        } else {
            let (m2, s) = puts_spec(m1, next_address(ptr), (fuel - 1) as nat);
            (m2, seq![w as u8] + s)
        }
    }
}

/// What PUTSP reads from `ptr` on: two characters a word, low byte first,
/// up to the first zero byte.
pub open spec fn putsp_spec(m: MemView, ptr: u16, fuel: nat) -> (MemView, Seq<u8>)
    decreases fuel,
{
    if fuel == 0 {
        (m, Seq::empty())
    } else {
        let (m1, w) = read_spec(m, ptr);
        let c1 = w as u8;
        let c2 = (w >> 8) as u8;
        if c1 == 0 {
            (m1, Seq::empty())
        } else if c2 == 0 {
            (m1, seq![c1])
        } else {
            let (m2, s) = putsp_spec(m1, next_address(ptr), (fuel - 1) as nat);
            (m2, seq![c1, c2] + s)
        }
    }
}

/// The machine after GETC: the next pending byte in R0; with none pending,
/// nothing changes and the trap waits for input.
pub open spec fn getc_spec(s: MachineView) -> (MachineView, Result<(), Signal>) {
    if s.mem.input.len() > 0 {
        (
            MachineView {
                regs: s.regs.update(0, s.mem.input[0] as u16),
                mem: MemView { space: s.mem.space, input: s.mem.input.drop_first() },
                out: s.out,
            },
            Ok(()),
        )
    } else {
        (s, Err(Signal::AwaitingInput))
    }
}

/// The machine after the handler `t` has run.
pub open spec fn trap_spec(t: Trap, s: MachineView) -> (MachineView, Result<(), Signal>) {
    match t {
        Trap::Getc => getc_spec(s),
        Trap::Out => (MachineView { out: s.out.push(s.regs[0] as u8), ..s }, Ok(())),
        Trap::Puts => {
            let (m, chars) = puts_spec(s.mem, s.regs[0], 0x10000);
            (MachineView { mem: m, out: s.out + chars, ..s }, Ok(()))
        },
        Trap::In => getc_spec(MachineView { out: s.out + prompt(), ..s }),
        Trap::Putsp => {
            let (m, chars) = putsp_spec(s.mem, s.regs[0], 0x10000);
            (MachineView { mem: m, out: s.out + chars, ..s }, Ok(()))
        },
        Trap::Halt => (s, Err(Signal::Halted)),
    }
}

/// The machine that three parts make.
pub open spec fn machine(reg: &RegBank, mem: &Memory, out: &Vec<u8>) -> MachineView {
    MachineView { regs: reg@, mem: mem@, out: out@ }
}

/// The trap vectors, each with its handler or none.
pub struct TrapMap {
    handlers: Vec<Option<Trap>>,
}

impl View for TrapMap {
    type V = Seq<Option<Trap>>;

    closed spec fn view(&self) -> Seq<Option<Trap>> {
        self.handlers@
    }
}

impl TrapMap {
    /// The table holds the standard handler of every vector.
    pub open spec fn wf(&self) -> bool {
        &&& self@.len() == 256
        &&& forall|v: u8| #[trigger] self@[v as int] == standard_trap(v)
    }

    /// The handler of `vector`, if it has one.
    pub fn get(&self, vector: u8) -> (r: Option<Trap>)
        requires
            self.wf(),
        ensures
            r == standard_trap(vector),
    {
        self.handlers[vector as usize]
    }
}

/// The table of the six standard traps, vectors 0x20 to 0x25.
pub fn build_trap_vec() -> (r: TrapMap)
    ensures
        r.wf(),
{
    let mut handlers: Vec<Option<Trap>> = Vec::new();
    let mut v: u16 = 0;
    while v < 256
        invariant
            v <= 256,
            handlers@.len() == v,
            forall|i: int| 0 <= i < v ==> handlers@[i] == standard_trap(i as u8),
        decreases 256 - v,
    {
        let t = if v == 0x20 {
            Some(Trap::Getc)
        } else if v == 0x21 {
            Some(Trap::Out)
        } else if v == 0x22 {
            Some(Trap::Puts)
        } else if v == 0x23 {
            Some(Trap::In)
        } else if v == 0x24 {
            Some(Trap::Putsp)
        } else if v == 0x25 {
            Some(Trap::Halt)
        } else {
            None
        };
        handlers.push(t);
        v = v + 1;
    }
    let r = TrapMap { handlers };
    assert forall|x: u8| #[trigger] r@[x as int] == standard_trap(x) by {
        assert(0 <= x as int && (x as int) < 256);
        assert((x as int) as u8 == x);
    }
    r
}

fn trap_getc(reg: &mut RegBank, mem: &mut Memory, out: &mut Vec<u8>) -> (r: Result<(), Signal>)
    requires
        old(mem).wf(),
    ensures
        final(mem).wf(),
        (machine(final(reg), final(mem), final(out)), r) == getc_spec(
            machine(old(reg), old(mem), old(out)),
        ),
{
    match mem.take_input() {
        Some(c) => {
            reg.write(REG::R0, c as u16);
            Ok(())
        },
        None => Err(Signal::AwaitingInput),
    }
}

fn trap_out(reg: &mut RegBank, mem: &mut Memory, out: &mut Vec<u8>) -> (r: Result<(), Signal>)
    requires
        old(mem).wf(),
    ensures
        final(mem).wf(),
        (machine(final(reg), final(mem), final(out)), r) == trap_spec(
            Trap::Out,
            machine(old(reg), old(mem), old(out)),
        ),
{
    let c = reg.read(REG::R0) as u8;
    out.push(c);
    Ok(())
}

fn trap_puts(reg: &mut RegBank, mem: &mut Memory, out: &mut Vec<u8>) -> (r: Result<(), Signal>)
    requires
        old(mem).wf(),
    ensures
        final(mem).wf(),
        (machine(final(reg), final(mem), final(out)), r) == trap_spec(
            Trap::Puts,
            machine(old(reg), old(mem), old(out)),
        ),
{
    let ghost m0 = mem@;
    let ghost out0 = out@;
    let ghost p0 = reg@[0];
    let mut ptr = reg.read(REG::R0);
    let mut n: u32 = 0;
    let mut done = false;
    while !done && n < 0x10000
        invariant
            mem.wf(),
            n <= 0x10000,
            out@.len() >= out0.len(),
            out@.subrange(0, out0.len() as int) == out0,
            puts_spec(m0, p0, 0x10000) == (if done {
                (mem@, out@.subrange(out0.len() as int, out@.len() as int))
            } else {
                (
                    puts_spec(mem@, ptr, (0x10000 - n) as nat).0,
                    out@.subrange(out0.len() as int, out@.len() as int) + puts_spec(
                        mem@,
                        ptr,
                        (0x10000 - n) as nat,
                    ).1,
                )
            }),
        decreases 0x10000 - n + (if done { 0int } else { 1int }),
    {
        let ghost before = mem@;
        let ghost emitted = out@.subrange(out0.len() as int, out@.len() as int);
        let c = mem.read(ptr) as u8;
        if c == 0 {
            done = true;
            assert(emitted + Seq::<u8>::empty() =~= emitted);
        } else {
            out.push(c);
            assert(out@.subrange(0, out0.len() as int) =~= out0);
            assert(out@.subrange(out0.len() as int, out@.len() as int) =~= emitted.push(c));
            ptr = ptr.wrapping_add(1);
            n = n + 1;
            let ghost rest = puts_spec(mem@, ptr, (0x10000 - n) as nat).1;
            assert(emitted + (seq![c] + rest) =~= emitted.push(c) + rest);
        }
    }
    proof {
        if !done {
            let emitted = out@.subrange(out0.len() as int, out@.len() as int);
            assert(emitted + Seq::<u8>::empty() =~= emitted);
        }
        assert(out@ =~= out0 + out@.subrange(out0.len() as int, out@.len() as int));
    }
    Ok(())
}

fn trap_in(reg: &mut RegBank, mem: &mut Memory, out: &mut Vec<u8>) -> (r: Result<(), Signal>)
    requires
        old(mem).wf(),
    ensures
        final(mem).wf(),
        (machine(final(reg), final(mem), final(out)), r) == trap_spec(
            Trap::In,
            machine(old(reg), old(mem), old(out)),
        ),
{
    out.push(73);
    out.push(110);
    out.push(112);
    out.push(117);
    out.push(116);
    out.push(58);
    out.push(32);
    assert(out@ =~= old(out)@ + prompt());
    trap_getc(reg, mem, out)
}

fn trap_putsp(reg: &mut RegBank, mem: &mut Memory, out: &mut Vec<u8>) -> (r: Result<(), Signal>)
    requires
        old(mem).wf(),
    ensures
        final(mem).wf(),
        (machine(final(reg), final(mem), final(out)), r) == trap_spec(
            Trap::Putsp,
            machine(old(reg), old(mem), old(out)),
        ),
{
    let ghost m0 = mem@;
    let ghost out0 = out@;
    let ghost p0 = reg@[0];
    let mut ptr = reg.read(REG::R0);
    let mut n: u32 = 0;
    let mut done = false;
    while !done && n < 0x10000
        invariant
            mem.wf(),
            n <= 0x10000,
            out@.len() >= out0.len(),
            out@.subrange(0, out0.len() as int) == out0,
            putsp_spec(m0, p0, 0x10000) == (if done {
                (mem@, out@.subrange(out0.len() as int, out@.len() as int))
            } else {
                (
                    putsp_spec(mem@, ptr, (0x10000 - n) as nat).0,
                    out@.subrange(out0.len() as int, out@.len() as int) + putsp_spec(
                        mem@,
                        ptr,
                        (0x10000 - n) as nat,
                    ).1,
                )
            }),
        decreases 0x10000 - n + (if done { 0int } else { 1int }),
    {
        let ghost emitted = out@.subrange(out0.len() as int, out@.len() as int);
        let word = mem.read(ptr);
        let c1 = word as u8;
        let c2 = (word >> 8) as u8;
        if c1 == 0 {
            done = true;
            assert(emitted + Seq::<u8>::empty() =~= emitted);
        } else if c2 == 0 {
            out.push(c1);
            done = true;
            assert(out@.subrange(0, out0.len() as int) =~= out0);
            assert(out@.subrange(out0.len() as int, out@.len() as int) =~= emitted + seq![c1]);
        } else {
            out.push(c1);
            out.push(c2);
            assert(out@.subrange(0, out0.len() as int) =~= out0);
            assert(out@.subrange(out0.len() as int, out@.len() as int) =~= emitted + seq![c1, c2]);
            ptr = ptr.wrapping_add(1);
            n = n + 1;
            let ghost rest = putsp_spec(mem@, ptr, (0x10000 - n) as nat).1;
            assert(emitted + (seq![c1, c2] + rest) =~= (emitted + seq![c1, c2]) + rest);
        }
    }
    proof {
        if !done {
            let emitted = out@.subrange(out0.len() as int, out@.len() as int);
            assert(emitted + Seq::<u8>::empty() =~= emitted);
        }
        assert(out@ =~= out0 + out@.subrange(out0.len() as int, out@.len() as int));
    }
    Ok(())
}

fn trap_halt(reg: &mut RegBank, mem: &mut Memory, out: &mut Vec<u8>) -> (r: Result<(), Signal>)
    ensures
        (machine(final(reg), final(mem), final(out)), r) == trap_spec(
            Trap::Halt,
            machine(old(reg), old(mem), old(out)),
        ),
{
    Err(Signal::Halted)
}

/// Runs the handler `t` on the registers, the memory and the output.
pub fn run_handler(t: Trap, reg: &mut RegBank, mem: &mut Memory, out: &mut Vec<u8>) -> (r: Result<(), Signal>)
    requires
        old(mem).wf(),
    ensures
        final(mem).wf(),
        (machine(final(reg), final(mem), final(out)), r) == trap_spec(
            t,
            machine(old(reg), old(mem), old(out)),
        ),
{
    match t {
        Trap::Getc => trap_getc(reg, mem, out),
        Trap::Out => trap_out(reg, mem, out),
        Trap::Puts => trap_puts(reg, mem, out),
        Trap::In => trap_in(reg, mem, out),
        Trap::Putsp => trap_putsp(reg, mem, out),
        Trap::Halt => trap_halt(reg, mem, out),
    }
}

} // verus!
