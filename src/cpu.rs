//! The register bank and the execution engine.
use vstd::prelude::*;
use crate::memory::{read_spec, write_spec, MemView, Memory};
use crate::reference::{Signal, FL, PC_START, REG, REG_COUNT};
use crate::traps::{build_trap_vec, run_handler, standard_trap, trap_spec, TrapMap};

verus! {

/// What a machine holds: its registers, its memory, and the output written
/// so far and not yet taken.
pub struct MachineView {
    pub regs: Seq<u16>,
    pub mem: MemView,
    pub out: Seq<u8>,
}

/// The ten registers.
pub struct RegBank {
    bank: [u16; REG_COUNT],
}

impl View for RegBank {
    type V = Seq<u16>;

    closed spec fn view(&self) -> Seq<u16> {
        self.bank@
    }
}

impl RegBank {
    /// All registers zero.
    pub fn new() -> (r: RegBank)
        ensures
            r@ == Seq::new(REG_COUNT as nat, |i: int| 0u16),
    {
        let r = RegBank { bank: [0u16; REG_COUNT] };
        assert(r@ =~= Seq::new(REG_COUNT as nat, |i: int| 0u16));
        r
    }

    /// The value in `reg`.
    pub fn read(&self, reg: REG) -> (r: u16)
        ensures
            r == self@[reg.index() as int],
            self@.len() == REG_COUNT,
    {
        self.bank[reg.index()]
    }

    /// Puts `value` in `reg`.
    pub fn write(&mut self, reg: REG, value: u16)
        ensures
            final(self)@ == old(self)@.update(reg.index() as int, value),
            final(self)@.len() == REG_COUNT,
    {
        self.bank[reg.index()] = value;
    }
}

/// The address `x` names, wrapping past the last one.
pub open spec fn wrap(x: int) -> u16 {
    (x % 0x10000) as u16
}

/// The registers with COND set to the flag of register `reg`.
pub open spec fn flagged(regs: Seq<u16>, reg: int) -> Seq<u16> {
    regs.update(REG::COND.index() as int, FL::of(regs[reg]).bits())
}

/// The machine after a fetch, and the word fetched: the word at PC is read,
/// and PC moves on by one.
pub open spec fn fetch_spec(s: MachineView) -> (MachineView, u16) {
    let (m, w) = read_spec(s.mem, s.regs[8]);
    (MachineView { regs: s.regs.update(8, wrap(s.regs[8] + 1)), mem: m, out: s.out }, w)
}

/// The machine after TRAP with vector `vector`.
pub open spec fn run_trap_spec(s: MachineView, vector: u8) -> (MachineView, Result<(), Signal>) {
    match standard_trap(vector) {
        Some(t) => trap_spec(t, s),
        None => (s, Err(Signal::UnknownTrap)),
    }
}

/// The execution engine: the registers, the memory it runs on, the trap
/// table, and the output that traps have written and the driver not yet taken.
pub struct CPU {
    reg: RegBank,
    mem: Memory,
    trap: TrapMap,
    out: Vec<u8>,
}

impl CPU {
    /// The registers, in bank order.
    pub open spec fn regs(&self) -> Seq<u16> {
        self.state().regs
    }

    /// The machine this engine holds.
    pub closed spec fn state(&self) -> MachineView {
        MachineView { regs: self.reg@, mem: self.mem@, out: self.out@ }
    }

    /// Every register and word is in place, and the trap table is the
    /// standard one.
    pub closed spec fn wf(&self) -> bool {
        &&& self.mem.wf()
        &&& self.trap.wf()
        &&& self.reg@.len() == REG_COUNT
    }

    /// The memory the engine runs on.
    pub fn memory(&self) -> (r: &Memory)
        requires
            self.wf(),
        ensures
            r.wf(),
            r@ == self.state().mem,
    {
        &self.mem
    }

    /// Reads `address` of the memory, with the keyboard poll at KBSR.
    pub fn mem_read(&mut self, address: u16) -> (r: u16)
        requires
            old(self).wf(),
        ensures
            final(self).wf(),
            (final(self).state().mem, r) == read_spec(old(self).state().mem, address),
            final(self).state().regs == old(self).state().regs,
            final(self).state().out == old(self).state().out,
    {
        self.mem.read(address)
    }

    /// Stores `value` at `address` of the memory.
    pub fn mem_write(&mut self, address: u16, value: u16)
        requires
            old(self).wf(),
        ensures
            final(self).wf(),
            final(self).state() == (MachineView {
                mem: write_spec(old(self).state().mem, address, value),
                ..old(self).state()
            }),
    {
        self.mem.write(address, value)
    }

    /// The value in `reg`.
    pub fn read(&self, reg: REG) -> (r: u16)
        requires
            self.wf(),
        ensures
            r == self.regs()[reg.index() as int],
            self.regs().len() == REG_COUNT,
    {
        self.reg.read(reg)
    }

    /// Puts `value` in `reg`.
    pub fn write(&mut self, reg: REG, value: u16)
        requires
            old(self).wf(),
        ensures
            final(self).wf(),
            final(self).state() == (MachineView {
                regs: old(self).regs().update(reg.index() as int, value),
                ..old(self).state()
            }),
    {
        self.reg.write(reg, value)
    }

    /// An engine on `mem`, with PC at the start address and every other
    /// register zero.
    pub fn new(mem: Memory) -> (r: CPU)
        requires
            mem.wf(),
        ensures
            r.wf(),
            r.state() == (MachineView {
                regs: Seq::new(REG_COUNT as nat, |i: int| 0u16).update(8, PC_START),
                mem: mem@,
                out: Seq::empty(),
            }),
    {
        let mut cpu = CPU { reg: RegBank::new(), mem: mem, trap: build_trap_vec(), out: Vec::new() };
        cpu.write(REG::PC, PC_START);
        cpu
    }

    /// Sets COND to the flag of the value in `reg`.
    pub fn update_flags(&mut self, reg: REG)
        requires
            old(self).wf(),
        ensures
            final(self).wf(),
            final(self).state() == (MachineView {
                regs: flagged(old(self).regs(), reg.index() as int),
                ..old(self).state()
            }),
    {
        let value = self.read(reg);
        let sign = value >> 15;
        assert(sign == 0 <==> value < 0x8000) by (bit_vector)
            requires
                sign == value >> 15,
        ;
        let flag = if value == 0 {
            FL::ZRO
        } else if sign == 0 {
            FL::POS
        } else {
            FL::NEG
        };
        self.write(REG::COND, flag.bits())
    }

    /// Runs the handler of trap `selector`.
    pub fn run_trap(&mut self, selector: u8) -> (r: Result<(), Signal>)
        requires
            old(self).wf(),
        ensures
            final(self).wf(),
            (final(self).state(), r) == run_trap_spec(old(self).state(), selector),
    {
        match self.trap.get(selector) {
            Some(t) => run_handler(t, &mut self.reg, &mut self.mem, &mut self.out),
            None => Err(Signal::UnknownTrap),
        }
    }

    /// Reads the word at PC and moves PC on by one, wrapping to zero.
    pub fn fetch(&mut self) -> (r: u16)
        requires
            old(self).wf(),
        ensures
            final(self).wf(),
            (final(self).state(), r) == fetch_spec(old(self).state()),
    {
        let pc = self.read(REG::PC);
        let instr = self.mem.read(pc);
        self.write(REG::PC, pc.wrapping_add(1));
        instr
    }

    /// Completes a GETC or IN trap that stopped with `Signal::AwaitingInput`:
    /// the byte read goes into R0.
    pub fn deliver_key(&mut self, byte: u8)
        requires
            old(self).wf(),
        ensures
            final(self).wf(),
            final(self).state() == (MachineView {
                regs: old(self).regs().update(0, byte as u16),
                ..old(self).state()
            }),
    {
        self.write(REG::R0, byte as u16)
    }

    /// Queues one byte of keyboard input for the memory-mapped keyboard and
    /// the input traps.
    pub fn push_input(&mut self, byte: u8)
        requires
            old(self).wf(),
        ensures
            final(self).wf(),
            final(self).state() == (MachineView {
                mem: MemView {
                    space: old(self).state().mem.space,
                    input: old(self).state().mem.input.push(byte),
                },
                ..old(self).state()
            }),
    {
        self.mem.push_input(byte)
    }

    /// Hands over the output written since the last call.
    pub fn take_output(&mut self) -> (r: Vec<u8>)
        requires
            old(self).wf(),
        ensures
            final(self).wf(),
            r@ == old(self).state().out,
            final(self).state() == (MachineView { out: Seq::empty(), ..old(self).state() }),
    {
        let mut r: Vec<u8> = Vec::new();
        std::mem::swap(&mut r, &mut self.out);
        r
    }
}

} // verus!
