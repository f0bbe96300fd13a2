use vstd::prelude::*;

verus! {

/// What a read outside a memory gives.
pub const OUT_OF_RANGE: u16 = 0xFFFF;

/// A memory of 16-bit words, all zero when made.
#[derive(Debug)]
pub struct Memory {
    data: Vec<u16>,
}

/// The word at `address` of the words `m`; `0xFFFF` outside of them.
pub open spec fn spec_get(m: Seq<u16>, address: usize) -> u16 {
    if address < m.len() {
        m[address as int]
    } else {
        OUT_OF_RANGE
    }
}

/// The words `m` after `value` is stored at `address`; a store outside of them is dropped.
pub open spec fn spec_set(m: Seq<u16>, address: usize, value: u16) -> Seq<u16> {
    if address < m.len() {
        m.update(address as int, value)
    } else {
        m
    }
}

/// `size` zero words.
pub open spec fn zeros(size: nat) -> Seq<u16> {
    Seq::new(size, |i: int| 0u16)
}

impl View for Memory {
    type V = Seq<u16>;

    closed spec fn view(&self) -> Seq<u16> {
        self.data@
    }
}

impl Memory {
    pub fn new(size: usize) -> (m: Memory)
        ensures
            m@ == zeros(size as nat),
    {
        let mut data: Vec<u16> = Vec::new();
        let mut i: usize = 0;
        while i < size
            invariant
                i <= size,
                data@ == zeros(i as nat),
            decreases size - i,
        {
            data.push(0);
            i += 1;
            assert(data@ =~= zeros(i as nat));
        }
        Memory { data }
    }

    /// The word at `address`, or `0xFFFF` where the memory has no such address.
    pub fn get(&self, address: usize) -> (r: u16)
        ensures
            r == spec_get(self@, address),
    {
        if address >= self.data.len() {
            return OUT_OF_RANGE;
        }
        self.data[address]
    }

    /// Stores `value` at `address`; a store outside the memory is dropped.
    pub fn set(&mut self, address: usize, value: u16)
        ensures
            final(self)@ == spec_set(old(self)@, address, value),
    {
        if address < self.data.len() {
            self.data[address] = value;
        }
    }

    /// Zeroes every word.
    pub fn reset(&mut self)
        ensures
            final(self)@ == zeros(old(self)@.len()),
    {
        let n: usize = self.data.len();
        let mut i: usize = 0;
        while i < n
            invariant
                n == self.data@.len(),
                n == old(self).data@.len(),
                i <= n,
                forall|j: int| 0 <= j < i ==> self.data@[j] == 0,
            decreases n - i,
        {
            self.data[i] = 0;
            i += 1;
        }
        assert(self@ =~= zeros(old(self)@.len()));
    }

    /// The number of words.
    pub fn size(&self) -> (r: usize)
        ensures
            r == self@.len(),
    {
        self.data.len()
    }
}

} // verus!
