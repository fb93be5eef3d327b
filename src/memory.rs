//! The 65536-word address space, with the memory-mapped keyboard.
use vstd::prelude::*;
use crate::reference::{MR_KBDR, MR_KBSR};

verus! {

/// Number of words in the address space.
pub const MEM_SIZE: usize = 65536;

/// What a memory holds: its words, and the input bytes not yet polled,
/// the next one first.
pub struct MemView {
    pub space: Seq<u16>,
    pub input: Seq<u8>,
}

/// The memory after the keyboard has been polled: with a byte pending, it is
/// taken into KBDR and KBSR reads all ones; with none, KBSR reads zero.
pub open spec fn poll(m: MemView) -> MemView {
    if m.input.len() > 0 {
        MemView {
            space: m.space.update(MR_KBSR as int, 0xFFFF).update(MR_KBDR as int, m.input[0] as u16),
            input: m.input.drop_first(),
        }
    } else {
        MemView { space: m.space.update(MR_KBSR as int, 0), input: m.input }
    }
}

/// The memory after a read of `address`, and the word read.
pub open spec fn read_spec(m: MemView, address: u16) -> (MemView, u16) {
    let after = if address == MR_KBSR {
        poll(m)
    } else {
        m
    };
    (after, after.space[address as int])
}

/// The memory after a store of `value` at `address`.
pub open spec fn write_spec(m: MemView, address: u16, value: u16) -> MemView {
    MemView { space: m.space.update(address as int, value), input: m.input }
}

/// The word that two bytes make, the first one high.
pub open spec fn word_spec(hi: u8, lo: u8) -> u16 {
    (hi as int * 256 + lo as int) as u16
}

/// The origin of an image: its first word.
pub open spec fn image_origin(bytes: Seq<u8>) -> u16 {
    word_spec(bytes[0], bytes[1])
}

/// Word `j` of an image's contents, after the origin.
pub open spec fn image_word(bytes: Seq<u8>, j: int) -> u16 {
    word_spec(bytes[2 + 2 * j], bytes[3 + 2 * j])
}

/// The address space once the first `count` words of an image's contents are
/// stored, from its origin on, wrapping past the last address.
pub open spec fn image_space(bytes: Seq<u8>, count: nat) -> Seq<u16>
    decreases count,
{
    if count == 0 {
        Seq::new(MEM_SIZE as nat, |i: int| 0u16)
    } else {
        let j = count - 1;
        image_space(bytes, j as nat).update(
            (image_origin(bytes) as int + j) % 0x10000,
            image_word(bytes, j),
        )
    }
}

/// Why an image cannot be loaded.
#[derive(Debug, Clone, Copy, PartialEq, Eq, Structural)]
pub enum ImageError {
    /// Fewer than two bytes: there is no origin.
    MissingOrigin,
    /// An odd number of bytes: the last word is cut short.
    OddLength,
}

/// The address space and the keyboard input not yet polled.
pub struct Memory {
    space: Vec<u16>,
    input: Vec<u8>,
}

impl View for Memory {
    type V = MemView;

    closed spec fn view(&self) -> MemView {
        MemView { space: self.space@, input: self.input@ }
    }
}

/// Two bytes of an image as one word, the first one high.
fn agg_be_bytes(hi: u8, lo: u8) -> (r: u16)
    ensures
        r == word_spec(hi, lo),
{
    (hi as u16) * 256 + (lo as u16)
}

impl Memory {
    /// Every word is in place.
    pub open spec fn wf(&self) -> bool {
        self@.space.len() == MEM_SIZE
    }

    /// A memory of zeros, with no input pending.
    pub fn new() -> (r: Memory)
        ensures
            r.wf(),
            r@.space == Seq::new(MEM_SIZE as nat, |i: int| 0u16),
            r@.input == Seq::<u8>::empty(),
    {
        let mut space: Vec<u16> = Vec::new();
        while space.len() < MEM_SIZE
            invariant
                space.len() <= MEM_SIZE,
                forall|i: int| 0 <= i < space.len() ==> space@[i] == 0u16,
            decreases MEM_SIZE - space.len(),
        {
            space.push(0);
        }
        let r = Memory { space, input: Vec::new() };
        assert(r@.space =~= Seq::new(MEM_SIZE as nat, |i: int| 0u16));
        r
    }

    /// The memory that an image describes: a big-endian origin word, then
    /// words stored one per address from the origin on.
    pub fn from_image(bytes: &Vec<u8>) -> (r: Result<Memory, ImageError>)
        ensures
            bytes@.len() < 2 ==> r == Err::<Memory, ImageError>(ImageError::MissingOrigin),
            bytes@.len() >= 2 && bytes@.len() % 2 == 1 ==> r == Err::<Memory, ImageError>(
                ImageError::OddLength,
            ),
            bytes@.len() >= 2 && bytes@.len() % 2 == 0 ==> r is Ok,
            r is Ok ==> {
                &&& r->Ok_0.wf()
                &&& r->Ok_0@.space == image_space(bytes@, ((bytes@.len() - 2) / 2) as nat)
                &&& r->Ok_0@.input == Seq::<u8>::empty()
            },
    {
        if bytes.len() < 2 {
            return Err(ImageError::MissingOrigin);
        }
        if bytes.len() % 2 == 1 {
            return Err(ImageError::OddLength);
        }
        let origin = agg_be_bytes(bytes[0], bytes[1]);
        let mut mem = Memory::new();
        let n = bytes.len();
        let count = (n - 2) / 2;
        let mut address = origin;
        let mut j: usize = 0;
        while j < count
            invariant
                n == bytes@.len(),
                n >= 2,
                n % 2 == 0,
                count == (bytes@.len() - 2) / 2,
                origin == image_origin(bytes@),
                j <= count,
                mem.wf(),
                mem@.input == Seq::<u8>::empty(),
                mem@.space == image_space(bytes@, j as nat),
                address as int == (origin as int + j) % 0x10000,
            decreases count - j,
        {
            assert(3 + 2 * j < n);
            let value = agg_be_bytes(bytes[2 + 2 * j], bytes[3 + 2 * j]);
            mem.write(address, value);
            address = address.wrapping_add(1);
            j = j + 1;
            assert(mem@.space =~= image_space(bytes@, j as nat));
        }
        Ok(mem)
    }

    /// Reads `address`. A read of KBSR first polls the keyboard: a pending
    /// byte goes into KBDR and sets KBSR to all ones, else KBSR becomes zero.
    pub fn read(&mut self, address: u16) -> (r: u16)
        requires
            old(self).wf(),
        ensures
            final(self).wf(),
            (final(self)@, r) == read_spec(old(self)@, address),
    {
        if address == MR_KBSR {
            if self.input.len() > 0 {
                let c = self.input.remove(0);
                self.space.set(MR_KBSR as usize, 0xFFFF);
                self.space.set(MR_KBDR as usize, c as u16);
                assert(self.input@ =~= old(self)@.input.drop_first());
            } else {
                self.space.set(MR_KBSR as usize, 0);
            }
        }
        self.space[address as usize]
    }

    /// The word at `address`, without touching the keyboard.
    pub fn get(&self, address: u16) -> (r: u16)
        requires
            self.wf(),
        ensures
            r == self@.space[address as int],
    {
        self.space[address as usize]
    }

    /// Stores `value` at `address`.
    pub fn write(&mut self, address: u16, value: u16)
        requires
            old(self).wf(),
        ensures
            final(self).wf(),
            final(self)@ == write_spec(old(self)@, address, value),
    {
        self.space.set(address as usize, value);
    }

    /// Queues one byte of keyboard input, after those already pending.
    pub fn push_input(&mut self, byte: u8)
        requires
            old(self).wf(),
        ensures
            final(self).wf(),
            final(self)@.space == old(self)@.space,
            final(self)@.input == old(self)@.input.push(byte),
    {
        self.input.push(byte);
    }

    /// Whether a byte of input is pending.
    pub fn has_input(&self) -> (r: bool)
        ensures
            r == (self@.input.len() > 0),
    {
        self.input.len() > 0
    }

    /// Takes the next pending byte of input, if there is one.
    pub fn take_input(&mut self) -> (r: Option<u8>)
        requires
            old(self).wf(),
        ensures
            final(self).wf(),
            final(self)@.space == old(self)@.space,
            old(self)@.input.len() == 0 ==> r is None && final(self)@.input == old(self)@.input,
            old(self)@.input.len() > 0 ==> r == Some(old(self)@.input[0])
                && final(self)@.input == old(self)@.input.drop_first(),
    {
        if self.input.len() > 0 {
            let c = self.input.remove(0);
            assert(self.input@ =~= old(self)@.input.drop_first());
            Some(c)
        } else {
            None
        }
    }
}

} // verus!
