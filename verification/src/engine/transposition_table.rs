//! A transposition table: a fixed number of slots, each holding the data
//! of one position, found by the position's hash.

use vstd::prelude::*;

verus! {

/// Data that decides for itself whether newer data may replace it.
pub trait TTOverwriteable: Sized {
    /// Whether `new` may replace this data.
    spec fn overwrite_spec(&self, new: &Self) -> bool;

    fn should_overwrite_with(&self, new: &Self) -> (r: bool)
        ensures r == self.overwrite_spec(new);
}

/// A slot of the table: the full hash of the position and its data.
#[derive(Clone, Copy, Debug)]
pub struct TranspositionTableEntry<T> {
    pub key: u64,
    pub data: T,
}

/// The number of slots of a table of `size_mb` megabytes.
pub fn calculate_number_of_entries<T>(size_mb: usize) -> (r: usize)
    requires size_mb * 1048576 <= usize::MAX,
    ensures
        vstd::layout::size_of::<TranspositionTableEntry<T>>() > 0 ==> r == (size_mb * 1048576) / (vstd::layout::size_of::<TranspositionTableEntry<T>>() as int),
{
    let entry_size = core::mem::size_of::<TranspositionTableEntry<T>>();
    if entry_size == 0 {
        return 0;
    }
    size_mb * 1048576 / entry_size
}

/// The slot of a hash in a table of `len` slots.
pub open spec fn slot(key: u64, len: int) -> int {
    (key as int) % len
}

/// The data a table holds for a hash: that of its slot when the slot holds
/// the same hash.
pub open spec fn lookup_in<T>(entries: Seq<Option<TranspositionTableEntry<T>>>, key: u64) -> Option<T> {
    match entries[slot(key, entries.len() as int)] {
        Some(e) => if e.key == key { Some(e.data) } else { None },
        None => None,
    }
}

/// Whether storing `data` for a hash replaces what its slot holds: the slot
/// is empty, or its data gives way to the new data.
pub open spec fn writes_in<T: TTOverwriteable>(entries: Seq<Option<TranspositionTableEntry<T>>>, key: u64, data: T) -> bool {
    match entries[slot(key, entries.len() as int)] {
        Some(e) => e.data.overwrite_spec(&data),
        None => true,
    }
}

/// The slots after storing `data` for a hash.
pub open spec fn inserted_in<T: TTOverwriteable>(entries: Seq<Option<TranspositionTableEntry<T>>>, key: u64, data: T) -> Seq<Option<TranspositionTableEntry<T>>> {
    if writes_in(entries, key, data) {
        entries.update(slot(key, entries.len() as int), Some(TranspositionTableEntry { key, data }))
    } else {
        entries
    }
}

/// A table of position data by hash.
pub struct TranspositionTable<T> {
    entries: Vec<Option<TranspositionTableEntry<T>>>,
    /// The number of the current search, wrapping around.
    generation: u8,
}

impl<T: Copy + TTOverwriteable> TranspositionTable<T> {
    /// The slots of the table.
    pub closed spec fn slots(self) -> Seq<Option<TranspositionTableEntry<T>>> {
        self.entries@
    }

    /// The number of the current search.
    pub closed spec fn current_generation(self) -> u8 {
        self.generation
    }

    /// The number of the current search, wrapping around.
    pub fn generation(&self) -> (r: u8)
        ensures r == self.current_generation(),
    {
        self.generation
    }

    /// The table has at least one slot.
    pub open spec fn wf(self) -> bool {
        self.slots().len() > 0
    }

    /// An empty table of `size_mb` megabytes (and at least one slot).
    pub fn new(size_mb: usize) -> (t: Self)
        requires size_mb * 1048576 <= usize::MAX,
        ensures
            t.wf(),
            forall|i: int| 0 <= i < t.slots().len() ==> t.slots()[i] is None,
            t.current_generation() == 0,
    {
        let n = calculate_number_of_entries::<T>(size_mb);
        let n = if n == 0 { 1 } else { n };
        let mut entries: Vec<Option<TranspositionTableEntry<T>>> = Vec::new();
        let mut i: usize = 0;
        while i < n
            invariant
                i <= n,
                entries@.len() == i,
                forall|k: int| 0 <= k < i ==> entries@[k] is None,
            decreases n - i,
        {
            entries.push(None);
            i = i + 1;
        }
        TranspositionTable { entries, generation: 0 }
    }

    /// Empties every slot.
    pub fn reset(&mut self)
        requires old(self).wf(),
        ensures
            final(self).wf(),
            final(self).slots().len() == old(self).slots().len(),
            forall|i: int| 0 <= i < final(self).slots().len() ==> final(self).slots()[i] is None,
            final(self).current_generation() == old(self).current_generation(),
    {
        let mut i: usize = 0;
        while i < self.entries.len()
            invariant
                i <= self.entries@.len(),
                self.entries@.len() == old(self).entries@.len(),
                self.generation == old(self).generation,
                forall|k: int| 0 <= k < i ==> self.entries@[k] is None,
            decreases self.entries@.len() - i,
        {
            self.entries.set(i, None);
            i = i + 1;
        }
    }

    /// Starts a new search.
    pub fn new_generation(&mut self)
        ensures
            final(self).slots() == old(self).slots(),
            final(self).current_generation() == (if old(self).current_generation() == 255 { 0 } else { old(self).current_generation() + 1 }),
    {
        self.generation = self.generation.wrapping_add(1);
    }

    /// The data stored for a hash, if its slot holds that hash.
    pub fn get(&self, key: &u64) -> (r: Option<T>)
        requires self.wf(),
        ensures r == lookup_in(self.slots(), *key),
    {
        let i = (*key % (self.entries.len() as u64)) as usize;
        match self.entries[i] {
            Some(e) => if e.key == *key { Some(e.data) } else { None },
            None => None,
        }
    }

    /// Stores the data for a hash in its slot, unless the data already
    /// there should be kept.
    pub fn insert(&mut self, key: &u64, data: T)
        requires old(self).wf(),
        ensures
            final(self).wf(),
            final(self).slots() == inserted_in(old(self).slots(), *key, data),
            final(self).current_generation() == old(self).current_generation(),
    {
        let i = (*key % (self.entries.len() as u64)) as usize;
        let write = match self.entries[i] {
            Some(e) => e.data.should_overwrite_with(&data),
            None => true,
        };
        if write {
            self.entries.set(i, Some(TranspositionTableEntry { key: *key, data }));
        }
    }

    /// How full the table is, in thousandths, judged by its first thousand
    /// slots (or all of them, when it has fewer).
    pub fn occupancy(&self) -> (r: usize)
        requires self.wf(),
        ensures r <= 1000,
    {
        let sample = if self.entries.len() < 1000 { self.entries.len() } else { 1000 };
        let mut used: usize = 0;
        let mut i: usize = 0;
        while i < sample
            invariant
                i <= sample,
                sample <= self.entries@.len(),
                sample <= 1000,
                used <= i,
            decreases sample - i,
        {
            if self.entries[i].is_some() {
                used = used + 1;
            }
            i = i + 1;
        }
        proof {
            assert(used * 1000 <= sample * 1000) by (nonlinear_arith) requires used <= sample;
            assert(used * 1000 / (sample as int) <= 1000) by (nonlinear_arith) requires used <= sample, sample > 0;
        }
        used * 1000 / sample
    }
}

/// What is read back for a hash right after storing data for it is that
/// data, whenever the store replaced what the slot held; and storing
/// changes nothing stored for hashes of other slots.
pub proof fn lemma_read_after_write<T: TTOverwriteable>(entries: Seq<Option<TranspositionTableEntry<T>>>, key: u64, data: T, other: u64)
    requires entries.len() > 0,
    ensures
        writes_in(entries, key, data) ==> lookup_in(inserted_in(entries, key, data), key) == Some(data),
        slot(other, entries.len() as int) != slot(key, entries.len() as int)
            ==> lookup_in(inserted_in(entries, key, data), other) == lookup_in(entries, other),
{
    let n = entries.len() as int;
    assert(0 <= slot(key, n) < n);
    assert(0 <= slot(other, n) < n);
}

} // verus!
