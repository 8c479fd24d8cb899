//! A model of the runtime contract that the emitted declarations rely on.
//!
//! The generated code stores every input in one optional slot of the
//! backing record (unset until the first write), evaluates a tracked
//! computation through a memo table that recomputes a key at most once
//! while nothing changes, and answers a detected dependency cycle with the
//! configured recovery result instead of failing.  [`BackingStore`],
//! [`MemoTable`] and [`resolve_cycle`] state those three obligations
//! exactly, so the laws about generated getters and setters can be proved
//! and exercised without the runtime itself.

use vstd::prelude::*;
use crate::assemble::RecordField;

verus! {

/// The durability qualifier a setter may carry; the plain setter uses
/// [`Durability::Low`].
#[derive(Clone, Copy, Debug, PartialEq, Eq, Structural)]
pub enum Durability {
    Low,
    Medium,
    High,
}

/// One backing-record slot per field: unset, or the last value written and
/// the durability it was written with.
pub struct BackingStore<V> {
    pub slots: Vec<(String, Option<(V, Durability)>)>,
}

/// The map a slot sequence denotes; a later slot of the same name wins.
pub open spec fn spec_slots_map<V>(s: Seq<(String, Option<(V, Durability)>)>) -> Map<
    Seq<char>,
    Option<(V, Durability)>,
>
    decreases s.len(),
{
    if s.len() == 0 {
        Map::empty()
    } else {
        spec_slots_map(s.drop_last()).insert(s.last().0@, s.last().1)
    }
}

/// A fresh store: every field present, every slot unset.
pub open spec fn spec_fresh_store<V>(fs: Seq<crate::assemble::FieldView>) -> Map<
    Seq<char>,
    Option<(V, Durability)>,
>
    decreases fs.len(),
{
    if fs.len() == 0 {
        Map::empty()
    } else {
        spec_fresh_store::<V>(fs.drop_last()).insert(fs.last().name, None)
    }
}

/// Every slot of a fresh store is unset.
pub proof fn lemma_fresh_store_unset<V>(fs: Seq<crate::assemble::FieldView>, k: Seq<char>)
    requires
        spec_fresh_store::<V>(fs).contains_key(k),
    ensures
        spec_fresh_store::<V>(fs)[k] is None,
    decreases fs.len(),
{
    if fs.len() > 0 && fs.last().name != k {
        lemma_fresh_store_unset::<V>(fs.drop_last(), k);
    }
}

/// A fresh store holds exactly the given field names.
pub proof fn lemma_fresh_store_dom<V>(fs: Seq<crate::assemble::FieldView>, k: Seq<char>)
    ensures
        spec_fresh_store::<V>(fs).contains_key(k) <==> exists|i: int|
            0 <= i < fs.len() && fs[i].name == k,
    decreases fs.len(),
{
    if fs.len() > 0 {
        lemma_fresh_store_dom::<V>(fs.drop_last(), k);
        if fs.last().name == k {
            assert(fs[fs.len() - 1].name == k);
        } else if spec_fresh_store::<V>(fs).contains_key(k) {
            let i = choose|i: int| 0 <= i < fs.drop_last().len() && fs.drop_last()[i].name == k;
            assert(fs[i].name == k);
        } else {
            assert(forall|i: int| 0 <= i < fs.len() - 1 ==> fs[i] == fs.drop_last()[i]);
        }
    }
}

impl<V> BackingStore<V> {
    /// Slot names are pairwise distinct, as method names within one trait
    /// are.
    pub open spec fn wf(&self) -> bool {
        forall|i: int, j: int|
            0 <= i < j < self.slots@.len() ==> self.slots@[i].0@ != self.slots@[j].0@
    }

    /// The store as a map from field name to slot.
    pub open spec fn view(&self) -> Map<Seq<char>, Option<(V, Durability)>> {
        spec_slots_map(self.slots@)
    }
}

/// A slot's entry is what the map gives for its name, provided names are
/// distinct.
proof fn lemma_slot_lookup<V>(s: Seq<(String, Option<(V, Durability)>)>, i: int)
    requires
        0 <= i < s.len(),
        forall|x: int, y: int| 0 <= x < y < s.len() ==> s[x].0@ != s[y].0@,
    ensures
        spec_slots_map(s).contains_key(s[i].0@),
        spec_slots_map(s)[s[i].0@] == s[i].1,
    decreases s.len(),
{
    if i < s.len() - 1 {
        assert(forall|x: int, y: int|
            0 <= x < y < s.drop_last().len() ==> s.drop_last()[x].0@ != s.drop_last()[y].0@);
        lemma_slot_lookup(s.drop_last(), i);
        assert(s.last().0@ != s[i].0@);
    }
}

/// Every key of the map names some slot.
proof fn lemma_map_key_has_slot<V>(s: Seq<(String, Option<(V, Durability)>)>, k: Seq<char>)
    requires
        spec_slots_map(s).contains_key(k),
    ensures
        exists|i: int| 0 <= i < s.len() && s[i].0@ == k,
    decreases s.len(),
{
    if s.len() > 0 && s.last().0@ != k {
        lemma_map_key_has_slot(s.drop_last(), k);
        let i = choose|i: int| 0 <= i < s.drop_last().len() && s.drop_last()[i].0@ == k;
        assert(s[i].0@ == k);
    } else if s.len() > 0 {
        assert(s[s.len() - 1].0@ == k);
    }
}

/// Updating one slot updates exactly its key in the map.
proof fn lemma_slot_update<V>(
    s: Seq<(String, Option<(V, Durability)>)>,
    i: int,
    e: (String, Option<(V, Durability)>),
)
    requires
        0 <= i < s.len(),
        forall|x: int, y: int| 0 <= x < y < s.len() ==> s[x].0@ != s[y].0@,
        e.0@ == s[i].0@,
    ensures
        spec_slots_map(s.update(i, e)) == spec_slots_map(s).insert(s[i].0@, e.1),
    decreases s.len(),
{
    let t = s.update(i, e);
    if i == s.len() - 1 {
        assert(t.drop_last() =~= s.drop_last());
        assert(t.last() == e);
        assert(spec_slots_map(t) =~= spec_slots_map(s).insert(s[i].0@, e.1));
    } else {
        assert(t.drop_last() =~= s.drop_last().update(i, e));
        assert(forall|x: int, y: int|
            0 <= x < y < s.drop_last().len() ==> s.drop_last()[x].0@ != s.drop_last()[y].0@);
        lemma_slot_update(s.drop_last(), i, e);
        assert(t.last() == s.last());
        assert(s.last().0@ != s[i].0@);
        assert(spec_slots_map(t) =~= spec_slots_map(s).insert(s[i].0@, e.1));
    }
}

/// Creates the store of a fresh backing record: one slot per field, all
/// unset, as the bootstrap function constructs it.
#[verifier::loop_isolation(false)]
pub fn new_store<V>(fields: &Vec<RecordField>) -> (r: BackingStore<V>)
    requires
        forall|i: int, j: int|
            0 <= i < j < fields.deep_view().len() ==> fields.deep_view()[i].name
                != fields.deep_view()[j].name,
    ensures
        r.wf(),
        r@ == spec_fresh_store::<V>(fields.deep_view()),
{
    let mut slots: Vec<(String, Option<(V, Durability)>)> = Vec::new();
    let mut i: usize = 0;
    while i < fields.len()
        invariant
            i <= fields.len(),
            slots@.len() == i,
            forall|j: int| 0 <= j < i ==> slots@[j].0@ == fields.deep_view()[j].name,
            forall|j: int| 0 <= j < i ==> slots@[j].1 is None,
            spec_slots_map(slots@) == spec_fresh_store::<V>(fields.deep_view().take(i as int)),
        decreases fields.len() - i,
    {
        let ghost pre = slots@;
        assert(fields.deep_view().take(i + 1).drop_last() =~= fields.deep_view().take(i as int));
        slots.push((fields[i].name.clone(), None));
        assert(slots@.drop_last() =~= pre);
        i = i + 1;
    }
    assert(fields.deep_view().take(fields.deep_view().len() as int) =~= fields.deep_view());
    assert forall|x: int, y: int|
        0 <= x < y < slots@.len() implies slots@[x].0@ != slots@[y].0@ by {
        assert(slots@[x].0@ == fields.deep_view()[x].name);
        assert(slots@[y].0@ == fields.deep_view()[y].name);
    }
    let r = BackingStore { slots };
    assert(r.wf());
    r
}

impl<V> BackingStore<V> {
    /// Whether the record has a field of this name.
    #[verifier::loop_isolation(false)]
    pub fn has_field(&self, name: &String) -> (r: bool)
        requires
            self.wf(),
        ensures
            r == self@.contains_key(name@),
    {
        let mut i: usize = 0;
        while i < self.slots.len()
            invariant
                i <= self.slots@.len(),
                forall|j: int| 0 <= j < i ==> self.slots@[j].0@ != name@,
            decreases self.slots@.len() - i,
        {
            if crate::text::string_eq_lit(&self.slots[i].0, name.as_str()) {
                proof {
                    lemma_slot_lookup(self.slots@, i as int);
                }
                return true;
            }
            i = i + 1;
        }
        proof {
            if self@.contains_key(name@) {
                lemma_map_key_has_slot(self.slots@, name@);
            }
        }
        false
    }

    /// The generated getter's read: the last value written to the field,
    /// or `None` for a field never written — the read that the generated
    /// getter turns into a fatal unwrap, never a silent default.
    #[verifier::loop_isolation(false)]
    pub fn get<'a>(&'a self, name: &String) -> (r: Option<&'a V>)
        requires
            self.wf(),
            self@.contains_key(name@),
        ensures
            match r {
                Some(v) => self@[name@] matches Some(p) && *v == p.0,
                None => self@[name@] is None,
            },
    {
        let mut i: usize = 0;
        loop
            invariant
                i <= self.slots@.len(),
                self.wf(),
                self@.contains_key(name@),
                forall|j: int| 0 <= j < i ==> self.slots@[j].0@ != name@,
            decreases self.slots@.len() - i,
        {
            if i >= self.slots.len() {
                proof {
                    lemma_map_key_has_slot(self.slots@, name@);
                }
                assert(false);
            }
            if crate::text::string_eq_lit(&self.slots[i].0, name.as_str()) {
                proof {
                    lemma_slot_lookup(self.slots@, i as int);
                }
                return match &self.slots[i].1 {
                    Some(p) => Some(&p.0),
                    None => None,
                };
            }
            i = i + 1;
        }
    }

    /// The durability a field's value was last written with, if it is set.
    #[verifier::loop_isolation(false)]
    pub fn durability(&self, name: &String) -> (r: Option<Durability>)
        requires
            self.wf(),
            self@.contains_key(name@),
        ensures
            match r {
                Some(d) => self@[name@] matches Some(p) && d == p.1,
                None => self@[name@] is None,
            },
    {
        let mut i: usize = 0;
        loop
            invariant
                i <= self.slots@.len(),
                forall|j: int| 0 <= j < i ==> self.slots@[j].0@ != name@,
            decreases self.slots@.len() - i,
        {
            if i >= self.slots.len() {
                proof {
                    lemma_map_key_has_slot(self.slots@, name@);
                }
                assert(false);
            }
            if crate::text::string_eq_lit(&self.slots[i].0, name.as_str()) {
                proof {
                    lemma_slot_lookup(self.slots@, i as int);
                }
                return match &self.slots[i].1 {
                    Some(p) => Some(p.1),
                    None => None,
                };
            }
            i = i + 1;
        }
    }

    /// The plain setter's write: assigns the value at default (low)
    /// durability.
    pub fn set(&mut self, name: &String, value: V)
        requires
            old(self).wf(),
            old(self)@.contains_key(name@),
        ensures
            final(self).wf(),
            final(self)@ == old(self)@.insert(name@, Some((value, Durability::Low))),
    {
        self.set_with_durability(name, value, Durability::Low);
    }

    /// The durability-aware setter's write: assigns the value at the given
    /// durability.
    #[verifier::loop_isolation(false)]
    pub fn set_with_durability(&mut self, name: &String, value: V, durability: Durability)
        requires
            old(self).wf(),
            old(self)@.contains_key(name@),
        ensures
            final(self).wf(),
            final(self)@ == old(self)@.insert(name@, Some((value, durability))),
    {
        let ghost s0 = self.slots@;
        let mut i: usize = 0;
        loop
            invariant
                i <= self.slots@.len(),
                self.slots@ == s0,
                self.wf(),
                self@.contains_key(name@),
                forall|j: int| 0 <= j < i ==> self.slots@[j].0@ != name@,
            decreases self.slots@.len() - i,
        {
            if i >= self.slots.len() {
                proof {
                    lemma_map_key_has_slot(self.slots@, name@);
                }
                assert(false);
            }
            if crate::text::string_eq_lit(&self.slots[i].0, name.as_str()) {
                let nm = self.slots[i].0.clone();
                let ghost e0: (String, Option<(V, Durability)>) = (nm, Some((value, durability)));
                proof {
                    lemma_slot_update(s0, i as int, e0);
                }
                self.slots[i] = (nm, Some((value, durability)));
                assert(self.slots@ == s0.update(i as int, e0));
                assert forall|x: int, y: int|
                    0 <= x < y < self.slots@.len() implies self.slots@[x].0@
                    != self.slots@[y].0@ by {
                    assert(self.slots@[x].0@ == s0[x].0@);
                    assert(self.slots@[y].0@ == s0[y].0@);
                }
                return;
            }
            i = i + 1;
        }
    }
}

/// What one memoized evaluation does to the table: an already-cached key
/// is answered from the table, anything else is computed once and cached.
pub open spec fn spec_fetch<V>(m: Map<Seq<char>, V>, k: Seq<char>, v: V) -> (Map<Seq<char>, V>, bool) {
    if m.contains_key(k) {
        (m, false)
    } else {
        (m.insert(k, v), true)
    }
}

/// The memo table behind a tracked computation's shim.
pub struct MemoTable<V> {
    pub entries: Vec<(String, V)>,
}

/// The map an entry sequence denotes; a later entry of the same key wins.
pub open spec fn spec_entries_map<V>(s: Seq<(String, V)>) -> Map<Seq<char>, V>
    decreases s.len(),
{
    if s.len() == 0 {
        Map::empty()
    } else {
        spec_entries_map(s.drop_last()).insert(s.last().0@, s.last().1)
    }
}

impl<V> MemoTable<V> {
    /// Keys are pairwise distinct.
    pub open spec fn wf(&self) -> bool {
        forall|i: int, j: int|
            0 <= i < j < self.entries@.len() ==> self.entries@[i].0@ != self.entries@[j].0@
    }

    /// The table as a map from key to cached value.
    pub open spec fn view(&self) -> Map<Seq<char>, V> {
        spec_entries_map(self.entries@)
    }

    /// An empty table.
    pub fn new() -> (r: MemoTable<V>)
        ensures
            r.wf(),
            r@ == Map::<Seq<char>, V>::empty(),
    {
        let r = MemoTable { entries: Vec::new() };
        assert(r.wf());
        r
    }

    /// The cached value of a key, if any.
    #[verifier::loop_isolation(false)]
    pub fn cached<'a>(&'a self, key: &String) -> (r: Option<&'a V>)
        requires
            self.wf(),
        ensures
            match r {
                Some(v) => self@.contains_key(key@) && *v == self@[key@],
                None => !self@.contains_key(key@),
            },
    {
        let mut i: usize = 0;
        while i < self.entries.len()
            invariant
                i <= self.entries@.len(),
                forall|j: int| 0 <= j < i ==> self.entries@[j].0@ != key@,
            decreases self.entries@.len() - i,
        {
            if crate::text::string_eq_lit(&self.entries[i].0, key.as_str()) {
                proof {
                    lemma_entry_lookup(self.entries@, i as int);
                }
                return Some(&self.entries[i].1);
            }
            i = i + 1;
        }
        proof {
            if self@.contains_key(key@) {
                lemma_map_key_has_entry(self.entries@, key@);
            }
        }
        None
    }

    /// One memoized evaluation: caches `computed` if the key is new and
    /// says whether a recomputation happened.
    #[verifier::loop_isolation(false)]
    pub fn fetch(&mut self, key: &String, computed: V) -> (recomputed: bool)
        requires
            old(self).wf(),
        ensures
            final(self).wf(),
            (final(self)@, recomputed) == spec_fetch(old(self)@, key@, computed),
    {
        let mut i: usize = 0;
        while i < self.entries.len()
            invariant
                i <= self.entries@.len(),
                self.entries@ == old(self).entries@,
                forall|j: int| 0 <= j < i ==> self.entries@[j].0@ != key@,
            decreases self.entries@.len() - i,
        {
            if crate::text::string_eq_lit(&self.entries[i].0, key.as_str()) {
                proof {
                    lemma_entry_lookup(self.entries@, i as int);
                }
                return false;
            }
            i = i + 1;
        }
        proof {
            if self@.contains_key(key@) {
                lemma_map_key_has_entry(self.entries@, key@);
            }
        }
        let ghost pre = self.entries@;
        self.entries.push((key.clone(), computed));
        assert(self.entries@.drop_last() =~= pre);
        assert forall|x: int, y: int|
            0 <= x < y < self.entries@.len() implies self.entries@[x].0@
            != self.entries@[y].0@ by {
            if y < pre.len() {
                assert(self.entries@[x] == pre[x]);
                assert(self.entries@[y] == pre[y]);
            } else {
                assert(self.entries@[x] == pre[x]);
                assert(self.entries@[y].0@ == key@);
            }
        }
        true
    }
}

/// An entry's value is what the map gives for its key, provided keys are
/// distinct.
proof fn lemma_entry_lookup<V>(s: Seq<(String, V)>, i: int)
    requires
        0 <= i < s.len(),
        forall|x: int, y: int| 0 <= x < y < s.len() ==> s[x].0@ != s[y].0@,
    ensures
        spec_entries_map(s).contains_key(s[i].0@),
        spec_entries_map(s)[s[i].0@] == s[i].1,
    decreases s.len(),
{
    if i < s.len() - 1 {
        assert(forall|x: int, y: int|
            0 <= x < y < s.drop_last().len() ==> s.drop_last()[x].0@ != s.drop_last()[y].0@);
        lemma_entry_lookup(s.drop_last(), i);
        assert(s.last().0@ != s[i].0@);
    }
}

/// Every key of the map names some entry.
proof fn lemma_map_key_has_entry<V>(s: Seq<(String, V)>, k: Seq<char>)
    requires
        spec_entries_map(s).contains_key(k),
    ensures
        exists|i: int| 0 <= i < s.len() && s[i].0@ == k,
    decreases s.len(),
{
    if s.len() > 0 && s.last().0@ != k {
        lemma_map_key_has_entry(s.drop_last(), k);
        let i = choose|i: int| 0 <= i < s.drop_last().len() && s.drop_last()[i].0@ == k;
        assert(s[i].0@ == k);
    } else if s.len() > 0 {
        assert(s[s.len() - 1].0@ == k);
    }
}

/// The failure the runtime reports for an unrecovered dependency cycle.
pub struct CycleError {
    pub query: String,
}

/// How one tracked evaluation ended: normally, or with a dependency cycle
/// detected.
pub enum EvalOutcome<V> {
    Completed(V),
    CycleDetected,
}

/// Answers an evaluation outcome under an optional cycle-recovery result: a
/// completed evaluation keeps its value; a detected cycle returns the
/// recovery result when one is configured, and fails otherwise.
pub fn resolve_cycle<V>(query: &String, outcome: EvalOutcome<V>, recovery: Option<V>) -> (r: Result<
    V,
    CycleError,
>)
    ensures
        outcome matches EvalOutcome::Completed(v) ==> r == Ok::<V, CycleError>(v),
        outcome is CycleDetected ==> (recovery matches Some(v) ==> r == Ok::<V, CycleError>(v)),
        outcome is CycleDetected && recovery is None ==> r is Err,
{
    match outcome {
        EvalOutcome::Completed(v) => Ok(v),
        EvalOutcome::CycleDetected => match recovery {
            Some(v) => Ok(v),
            None => Err(CycleError { query: query.clone() }),
        },
    }
}

} // verus!
