//! An insertion-ordered, string-keyed container of text and number values:
//! the shape in which a record crosses to the host runtime.

use vstd::prelude::*;

verus! {

/// What a [`Value`] stands for.
pub enum ValueModel {
    Str(Seq<char>),
    Num(nat),
}

/// One key and the value held under it, as seen in specifications.
pub type EntryModel = (Seq<char>, ValueModel);

/// A value held under a key of a [`Mapping`]: text or an unsigned number.
#[derive(Debug, PartialEq, Eq)]
pub enum Value {
    Str(String),
    Num(u32),
}

impl View for Value {
    type V = ValueModel;

    open spec fn view(&self) -> ValueModel {
        match self {
            Value::Str(s) => ValueModel::Str(s@),
            Value::Num(n) => ValueModel::Num(*n as nat),
        }
    }
}

/// The keys of a mapping, in order.
pub open spec fn keys_of(m: Seq<EntryModel>) -> Seq<Seq<char>> {
    m.map_values(|e: EntryModel| e.0)
}

/// `i` is the first position of `m` that holds key `k`.
pub open spec fn first_at(m: Seq<EntryModel>, k: Seq<char>, i: int) -> bool {
    &&& 0 <= i < m.len()
    &&& m[i].0 == k
    &&& forall|j: int| 0 <= j < i ==> m[j].0 != k
}

/// `m` holds key `k` somewhere.
pub open spec fn has_key(m: Seq<EntryModel>, k: Seq<char>) -> bool {
    exists|i: int| 0 <= i < m.len() && m[i].0 == k
}

/// The first position of `m` that holds key `k` (meaningful when `has_key(m, k)`).
pub open spec fn position_of(m: Seq<EntryModel>, k: Seq<char>) -> int {
    choose|i: int| first_at(m, k, i)
}

/// The value that `m` holds under `k`: that of its first entry with that key.
pub open spec fn lookup(m: Seq<EntryModel>, k: Seq<char>) -> Option<ValueModel> {
    if has_key(m, k) {
        Some(m[position_of(m, k)].1)
    } else {
        None
    }
}

/// `m` after setting `k` to `v`: the first entry with key `k` takes the new
/// value in place; where there is none, the pair is appended at the end.
pub open spec fn assign(m: Seq<EntryModel>, k: Seq<char>, v: ValueModel) -> Seq<EntryModel> {
    if has_key(m, k) {
        m.update(position_of(m, k), (k, v))
    } else {
        m.push((k, v))
    }
}

/// Where `m` holds `k`, exactly one position is the first to hold it.
pub proof fn lemma_first_position(m: Seq<EntryModel>, k: Seq<char>, i: int)
    requires
        first_at(m, k, i),
    ensures
        has_key(m, k),
        position_of(m, k) == i,
{
    let p = position_of(m, k);
    assert(first_at(m, k, p));
    if p < i {
        assert(m[p].0 != k);
    } else if i < p {
        assert(m[i].0 != k);
    }
}

/// An ordered, string-keyed container of [`Value`]s.
#[derive(Debug, PartialEq, Eq)]
pub struct Mapping {
    entries: Vec<(String, Value)>,
}

impl View for Mapping {
    type V = Seq<EntryModel>;

    closed spec fn view(&self) -> Seq<EntryModel> {
        self.entries@.map_values(|e: (String, Value)| (e.0@, e.1@))
    }
}

impl Mapping {
    /// A mapping with no entries.
    pub fn new() -> (r: Mapping)
        ensures
            r@ == Seq::<EntryModel>::empty(),
    {
        let r = Mapping { entries: Vec::new() };
        assert(r@ =~= Seq::<EntryModel>::empty());
        r
    }

    /// The number of entries.
    pub fn len(&self) -> (r: usize)
        ensures
            r == self@.len(),
    {
        self.entries.len()
    }

    /// The key of entry `i`.
    pub fn key_at(&self, i: usize) -> (r: &str)
        requires
            i < self@.len(),
        ensures
            r@ == self@[i as int].0,
    {
        self.entries[i].0.as_str()
    }

    /// The value of entry `i`.
    pub fn value_at(&self, i: usize) -> (r: &Value)
        requires
            i < self@.len(),
        ensures
            r@ == self@[i as int].1,
    {
        &self.entries[i].1
    }

    /// The value held under `key`, if any: that of the first entry with that key.
    pub fn get(&self, key: &str) -> (r: Option<&Value>)
        ensures
            r is None <==> lookup(self@, key@) is None,
            r matches Some(v) ==> lookup(self@, key@) == Some(v@),
    {
        let k = key.to_owned();
        let mut i: usize = 0;
        while i < self.entries.len()
            invariant
                k@ == key@,
                i <= self@.len(),
                self@.len() == self.entries.len(),
                forall|j: int| 0 <= j < i ==> self@[j].0 != key@,
            decreases self.entries.len() - i,
        {
            assert(self@[i as int].0 == self.entries@[i as int].0@);
            if self.entries[i].0 == k {
                proof {
                    lemma_first_position(self@, key@, i as int);
                }
                return Some(&self.entries[i].1);
            }
            i += 1;
        }
        None
    }

    /// Sets `key` to `value`: the first entry with that key takes the new value
    /// in place, and where there is none the pair is appended.
    pub fn set(&mut self, key: &str, value: Value)
        ensures
            final(self)@ == assign(old(self)@, key@, value@),
    {
        let k = key.to_owned();
        let ghost before = self@;
        let mut i: usize = 0;
        while i < self.entries.len()
            invariant
                k@ == key@,
                self@ == before,
                before == old(self)@,
                i <= before.len(),
                before.len() == self.entries.len(),
                forall|j: int| 0 <= j < i ==> before[j].0 != key@,
            decreases self.entries.len() - i,
        {
            assert(before[i as int].0 == self.entries@[i as int].0@);
            if self.entries[i].0 == k {
                proof {
                    lemma_first_position(before, key@, i as int);
                }
                self.entries.set(i, (k, value));
                assert(self@ =~= before.update(i as int, (key@, value@)));
                return;
            }
            i += 1;
        }
        self.entries.push((k, value));
        assert(self@ =~= before.push((key@, value@)));
    }
}

} // verus!
