use vstd::prelude::*;
use crate::chip::pin::PinId;
use crate::text::same;

verus! {

/// One named pin of a chip.
#[derive(Debug)]
pub struct PinEntry {
    pub name: String,
    pub pin: PinId,
}

/// The pins of one group of a chip, by name, in the order in which the
/// names first came.
#[derive(Debug)]
pub struct PinMap {
    entries: Vec<PinEntry>,
}

/// The first index from `k` on at which `m` holds `name`, or the length of `m`.
pub open spec fn find_from(m: Seq<(Seq<char>, PinId)>, name: Seq<char>, k: nat) -> nat
    decreases m.len() - k,
{
    if k >= m.len() {
        m.len()
    } else if m[k as int].0 == name {
        k
    } else {
        find_from(m, name, k + 1)
    }
}

/// The pin that `m` holds under `name`.
pub open spec fn lookup(m: Seq<(Seq<char>, PinId)>, name: Seq<char>) -> Option<PinId> {
    let k = find_from(m, name, 0);
    if k < m.len() {
        Some(m[k as int].1)
    } else {
        None
    }
}

/// `m` with `pin` under `name`: in the place of the pin that had the name, or at the end.
pub open spec fn inserted(m: Seq<(Seq<char>, PinId)>, name: Seq<char>, pin: PinId) -> Seq<
    (Seq<char>, PinId),
> {
    let k = find_from(m, name, 0);
    if k < m.len() {
        m.update(k as int, (name, pin))
    } else {
        m.push((name, pin))
    }
}

pub proof fn lemma_find_from_bounds(m: Seq<(Seq<char>, PinId)>, name: Seq<char>, k: nat)
    requires
        k <= m.len(),
    ensures
        k <= find_from(m, name, k) <= m.len(),
        find_from(m, name, k) < m.len() ==> m[find_from(m, name, k) as int].0 == name,
    decreases m.len() - k,
{
    if k < m.len() && m[k as int].0 != name {
        lemma_find_from_bounds(m, name, k + 1);
    }
}

impl View for PinMap {
    type V = Seq<(Seq<char>, PinId)>;

    closed spec fn view(&self) -> Seq<(Seq<char>, PinId)> {
        Seq::new(self.entries@.len(), |i: int| (self.entries@[i].name@, self.entries@[i].pin))
    }
}

impl PinMap {
    pub fn new() -> (m: PinMap)
        ensures
            m@ == Seq::<(Seq<char>, PinId)>::empty(),
    {
        let m = PinMap { entries: Vec::new() };
        assert(m@ =~= Seq::<(Seq<char>, PinId)>::empty());
        m
    }

    /// The number of names.
    pub fn len(&self) -> (n: usize)
        ensures
            n == self@.len(),
    {
        self.entries.len()
    }

    fn position(&self, name: &str) -> (k: usize)
        ensures
            k == find_from(self@, name@, 0),
            k <= self@.len(),
    {
        let n: usize = self.entries.len();
        let mut k: usize = 0;
        while k < n
            invariant
                n == self@.len(),
                k <= n,
                find_from(self@, name@, k as nat) == find_from(self@, name@, 0),
            decreases n - k,
        {
            if same(self.entries[k].name.as_str(), name) {
                return k;
            }
            k += 1;
        }
        k
    }

    /// The pin under `name`.
    pub fn get(&self, name: &str) -> (r: Option<PinId>)
        ensures
            r == lookup(self@, name@),
    {
        let k = self.position(name);
        if k < self.entries.len() {
            Some(self.entries[k].pin)
        } else {
            None
        }
    }

    pub fn contains_key(&self, name: &str) -> (r: bool)
        ensures
            r == lookup(self@, name@).is_some(),
    {
        self.position(name) < self.entries.len()
    }

    /// Puts `pin` under `name`; a pin that had the name leaves.
    pub fn insert(&mut self, name: String, pin: PinId)
        ensures
            final(self)@ == inserted(old(self)@, name@, pin),
    {
        let k = self.position(name.as_str());
        if k < self.entries.len() {
            self.entries[k] = PinEntry { name, pin };
            assert(self@ =~= inserted(old(self)@, name@, pin));
        } else {
            self.entries.push(PinEntry { name, pin });
            assert(self@ =~= inserted(old(self)@, name@, pin));
        }
    }

    /// Adds `pin` under `name` at the end, whatever names there are.
    pub(crate) fn append(&mut self, name: String, pin: PinId)
        ensures
            final(self)@ == old(self)@.push((name@, pin)),
    {
        self.entries.push(PinEntry { name, pin });
        assert(self@ =~= old(self)@.push((name@, pin)));
    }

    /// The pin at place `i`.
    pub fn pin_at(&self, i: usize) -> (r: PinId)
        requires
            i < self@.len(),
        ensures
            r == self@[i as int].1,
    {
        self.entries[i].pin
    }

    /// The name at place `i`.
    pub fn name_at(&self, i: usize) -> (r: &str)
        requires
            i < self@.len(),
        ensures
            r@ == self@[i as int].0,
    {
        self.entries[i].name.as_str()
    }
}

} // verus!
