use vstd::prelude::*;

verus! {

/// Largest address of the 16-bit address space.
pub const MAX_ADDRESS: u16 = 0xffff;

/// The byte at `address` of a store holding `mem`, or `None` where the address
/// lies outside the 16-bit address space or past the end of the store.
pub open spec fn byte_at(mem: Seq<u8>, address: int) -> Option<u8> {
    if 0 <= address <= MAX_ADDRESS && address < mem.len() {
        Some(mem[address])
    } else {
        None
    }
}

/// The little-endian word whose low byte is at `address` and whose high byte
/// is at `address + 1`, or `None` where either byte cannot be read.
pub open spec fn word_at(mem: Seq<u8>, address: int) -> Option<u16> {
    match (byte_at(mem, address), byte_at(mem, address + 1)) {
        (Some(lo), Some(hi)) => Some((lo + 256 * hi) as u16),
        _ => None,
    }
}

/// Stores `value` at `address`: the new contents, and whether the address was valid.
pub open spec fn write_byte(mem: Seq<u8>, address: int, value: u8) -> (Seq<u8>, bool) {
    if byte_at(mem, address) is Some {
        (mem.update(address, value), true)
    } else {
        (mem, false)
    }
}

/// Stores the low byte of `value` at `address`, then its high byte at `address + 1`.
/// The second store is attempted only after the first succeeded, and the first
/// one is kept even where the second fails.
pub open spec fn write_word(mem: Seq<u8>, address: int, value: u16) -> (Seq<u8>, bool) {
    let (m1, ok1) = write_byte(mem, address, (value % 256) as u8);
    if ok1 {
        write_byte(m1, address + 1, (value / 256) as u8)
    } else {
        (m1, false)
    }
}

/// Copies `n` bytes one at a time, in ascending order, from `from` to `to`,
/// stopping at the first byte that cannot be read or written. Bytes copied
/// before the failure stay copied; overlapping ranges see earlier copies.
pub open spec fn copy_bytes(mem: Seq<u8>, from: int, to: int, n: nat) -> (Seq<u8>, bool)
    decreases n,
{
    if n == 0 {
        (mem, true)
    } else {
        match byte_at(mem, from) {
            Some(x) => {
                let (m1, ok) = write_byte(mem, to, x);
                if ok {
                    copy_bytes(m1, from + 1, to + 1, (n - 1) as nat)
                } else {
                    (m1, false)
                }
            },
            None => (mem, false),
        }
    }
}

/// Writing a word at an address where both of its bytes lie in range succeeds,
/// and reading the word back from that address gives the value written.
pub proof fn lemma_word_round_trip(mem: Seq<u8>, address: int, value: u16)
    requires
        0 <= address,
        address + 1 <= MAX_ADDRESS,
        address + 1 < mem.len(),
    ensures
        write_word(mem, address, value).1,
        word_at(write_word(mem, address, value).0, address) == Some(value),
{
}

/// Writing a word leaves the word at an address that shares no byte with it as
/// it was.
pub proof fn lemma_word_frame(mem: Seq<u8>, address: int, other: int, value: u16)
    requires
        other + 1 < address || address + 1 < other,
    ensures
        word_at(write_word(mem, address, value).0, other) == word_at(mem, other),
{
}

/// At an address at or past the end of the store every read fails, and every
/// write fails and leaves the store as it was.
pub proof fn lemma_out_of_range(mem: Seq<u8>, address: int, byte: u8, word: u16)
    requires
        address >= mem.len(),
    ensures
        byte_at(mem, address) is None,
        word_at(mem, address) is None,
        write_byte(mem, address, byte) == (mem, false),
        write_word(mem, address, word) == (mem, false),
{
}

/// Byte-addressable storage with a 16-bit address space.
///
/// A store is modelled by the sequence of its bytes: address `a` is valid when
/// it is below the sequence's length. The word and copy operations are built
/// from the single-byte ones.
pub trait Addressable {
    /// The bytes held, the one at address `a` at index `a`.
    spec fn bytes(&self) -> Seq<u8>;

    /// The byte at `address`, or `None` where it is out of range.
    fn read(&self, address: u16) -> (r: Option<u8>)
        ensures
            r == byte_at(self.bytes(), address as int),
    ;

    /// Stores `value` at `address`; returns `false`, changing nothing, where it
    /// is out of range.
    fn write(&mut self, address: u16, value: u8) -> (r: bool)
        ensures
            (final(self).bytes(), r) == write_byte(old(self).bytes(), address as int, value),
    ;

    /// The little-endian word at `address`, or `None` where either of its bytes
    /// is out of range.
    fn read2(&self, address: u16) -> (r: Option<u16>)
        ensures
            r == word_at(self.bytes(), address as int),
    {
        if let Some(x0) = self.read(address) {
            if address < MAX_ADDRESS {
                if let Some(x1) = self.read(address + 1) {
                    let w: u16 = (x0 as u16) | ((x1 as u16) << 8u16);
                    assert(w == (x0 + 256 * x1) as u16) by (bit_vector)
                        requires
                            w == (x0 as u16) | ((x1 as u16) << 8u16),
                    ;
                    return Some(w);
                }
            }
        }
        None
    }

    /// Stores `value` little-endian at `address`, low byte first. Where the high
    /// byte is out of range the low byte stays written and `false` is returned.
    fn write2(&mut self, address: u16, value: u16) -> (r: bool)
        ensures
            (final(self).bytes(), r) == write_word(old(self).bytes(), address as int, value),
    {
        let lower: u16 = value & 0xff;
        let upper: u16 = (value & 0xff00) >> 8u16;
        assert(lower == value % 256 && upper == value / 256) by (bit_vector)
            requires
                lower == value & 0xff,
                upper == (value & 0xff00) >> 8u16,
        ;
        if !self.write(address, lower as u8) {
            return false;
        }
        if address == MAX_ADDRESS {
            return false;
        }
        self.write(address + 1, upper as u8)
    }

    /// Copies `n` bytes from `from` to `to`, one at a time in ascending order;
    /// stops and returns `false` at the first byte that cannot be read or
    /// written, keeping the bytes already copied.
    fn copy(&mut self, from: u16, to: u16, n: usize) -> (r: bool)
        ensures
            (final(self).bytes(), r) == copy_bytes(old(self).bytes(), from as int, to as int, n as nat),
    {
        let ghost goal = copy_bytes(self.bytes(), from as int, to as int, n as nat);
        let mut i: usize = 0;
        while i < n
            invariant
                i <= n,
                goal == copy_bytes(old(self).bytes(), from as int, to as int, n as nat),
                goal == copy_bytes(self.bytes(), from + i, to + i, (n - i) as nat),
            decreases n - i,
        {
            if i > (MAX_ADDRESS - from) as usize {
                return false;
            }
            let x = match self.read(from + i as u16) {
                Some(x) => x,
                None => return false,
            };
            if i > (MAX_ADDRESS - to) as usize {
                return false;
            }
            if !self.write(to + i as u16, x) {
                return false;
            }
            i = i + 1;
        }
        true
    }
}

/// A fixed-size, zero-filled byte buffer; every address below its size is valid.
pub struct LinearMemory {
    bytes: Vec<u8>,
}

impl LinearMemory {
    /// A store of `n` bytes, all zero.
    pub fn new(n: usize) -> (r: LinearMemory)
        ensures
            r.bytes() == Seq::new(n as nat, |i: int| 0u8),
    {
        let r = LinearMemory { bytes: vec![0u8; n] };
        assert(r.bytes() =~= Seq::new(n as nat, |i: int| 0u8));
        r
    }

    /// The number of bytes held.
    pub fn size(&self) -> (r: usize)
        ensures
            r == self.bytes().len(),
    {
        self.bytes.len()
    }
}

impl Addressable for LinearMemory {
    closed spec fn bytes(&self) -> Seq<u8> {
        self.bytes@
    }

    fn read(&self, address: u16) -> (r: Option<u8>) {
        if (address as usize) < self.bytes.len() {
            Some(self.bytes[address as usize])
        } else {
            None
        }
    }

    fn write(&mut self, address: u16, value: u8) -> (r: bool) {
        if (address as usize) < self.bytes.len() {
            self.bytes.set(address as usize, value);
            true
        } else {
            false
        }
    }
}

} // verus!
