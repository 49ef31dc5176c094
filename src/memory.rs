//! The 4 KiB byte-addressed memory.
use vstd::prelude::*;
use crate::display::zeroed;

verus! {

pub const MEMORY_SIZE: usize = 4096;

/// `m` with `values` written from `addr` on.
pub open spec fn spliced(m: Seq<u8>, addr: int, values: Seq<u8>) -> Seq<u8> {
    Seq::new(m.len(), |k: int| if addr <= k < addr + values.len() { values[k - addr] } else { m[k] })
}

/// The machine's memory.
pub struct Memory {
    data: Vec<u8>,
}

impl View for Memory {
    type V = Seq<u8>;

    closed spec fn view(&self) -> Seq<u8> {
        self.data@
    }
}

impl Memory {
    /// Zero-filled memory.
    pub fn new() -> (r: Self)
        ensures
            r@ == Seq::new(4096, |k: int| 0u8),
    {
        Memory { data: zeroed(MEMORY_SIZE) }
    }

    /// The byte at `addr`.
    pub fn read(&self, addr: u16) -> (r: u8)
        requires
            self@.len() == 4096,
            addr < 4096,
        ensures
            r == self@[addr as int],
    {
        self.data[addr as usize]
    }

    /// Stores `value` at `addr`.
    pub fn write(&mut self, addr: u16, value: u8)
        requires
            old(self)@.len() == 4096,
            addr < 4096,
        ensures
            final(self)@ == old(self)@.update(addr as int, value),
    {
        self.data.set(addr as usize, value);
    }

    /// Copies `values` into memory from `addr` on.
    pub fn write_array(&mut self, addr: u16, values: &[u8])
        requires
            old(self)@.len() == 4096,
            addr + values@.len() <= 4096,
        ensures
            final(self)@ == spliced(old(self)@, addr as int, values@),
    {
        let ghost m0 = self@;
        let mut i: usize = 0;
        while i < values.len()
            invariant
                i <= values@.len(),
                addr + values@.len() <= 4096,
                self@.len() == 4096,
                m0.len() == 4096,
                forall|k: int| 0 <= k < 4096 ==> #[trigger] self@[k] == if addr <= k < addr + i { values@[k - addr] } else { m0[k] },
            decreases values@.len() - i,
        {
            self.data.set(addr as usize + i, values[i]);
            i = i + 1;
        }
        assert(self@ =~= spliced(m0, addr as int, values@));
    }
}

} // verus!
