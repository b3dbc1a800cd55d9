//! Counter records and counter stores.
//!
//! A record maps counter names to unsigned 64-bit values; a store maps
//! counter-query targets (LID and port) to records.  Both are kept as
//! association lists with unique keys and are specified against the maps
//! they describe.

use vstd::prelude::*;

use crate::assoc::{
    assoc_map, lemma_assoc_map_contains, lemma_assoc_map_dom_len, lemma_assoc_map_index,
    lemma_assoc_map_push, lemma_assoc_map_update, unique_keys,
};
use crate::model::LidPort;
use crate::text::str_eq;

verus! {

/// One sample's counters: counter name to value.
pub struct CounterRecord {
    entries: Vec<(String, u64)>,
}

impl View for CounterRecord {
    type V = Map<Seq<char>, u64>;

    closed spec fn view(&self) -> Map<Seq<char>, u64> {
        assoc_map(self.kv())
    }
}

impl CounterRecord {
    /// The entries, with keys read as character sequences.
    pub closed spec fn kv(self) -> Seq<(Seq<char>, u64)> {
        self.entries@.map_values(|e: (String, u64)| (e.0@, e.1))
    }

    /// Each counter name occurs at most once.
    pub open spec fn wf(self) -> bool {
        unique_keys(self.kv())
    }

    /// An empty record.
    pub fn new() -> (r: Self)
        ensures
            r@ == Map::<Seq<char>, u64>::empty(),
            r.wf(),
    {
        let r = CounterRecord { entries: Vec::new() };
        proof {
            assert(r.kv() =~= Seq::<(Seq<char>, u64)>::empty());
        }
        r
    }

    /// The value stored under a counter name, if any.
    pub fn get(&self, key: &str) -> (r: Option<u64>)
        requires
            self.wf(),
        ensures
            r == if self@.contains_key(key@) {
                Some(self@[key@])
            } else {
                None::<u64>
            },
    {
        let n = self.entries.len();
        let mut i: usize = 0;
        while i < n
            invariant
                n == self.entries@.len(),
                i <= n,
                self.wf(),
                forall|j: int| 0 <= j < i ==> self.kv()[j].0 != key@,
            decreases n - i,
        {
            if str_eq(self.entries[i].0.as_str(), key) {
                proof {
                    lemma_assoc_map_index(self.kv(), i as int);
                }
                return Some(self.entries[i].1);
            }
            i += 1;
        }
        proof {
            lemma_assoc_map_contains(self.kv(), key@);
        }
        None
    }

    /// The value stored under a counter name, or a default.
    pub fn get_or(&self, key: &str, default: u64) -> (r: u64)
        requires
            self.wf(),
        ensures
            r == spec_get_or(self@, key@, default),
    {
        match self.get(key) {
            Some(v) => v,
            None => default,
        }
    }

    /// Stores a value under a counter name, replacing any previous value.
    pub fn insert(&mut self, key: String, value: u64)
        requires
            old(self).wf(),
        ensures
            final(self).wf(),
            final(self)@ == old(self)@.insert(key@, value),
    {
        let n = self.entries.len();
        let mut i: usize = 0;
        while i < n
            invariant
                *self == *old(self),
                n == self.entries@.len(),
                i <= n,
                old(self).wf(),
                forall|j: int| 0 <= j < i ==> self.kv()[j].0 != key@,
            decreases n - i,
        {
            if str_eq(self.entries[i].0.as_str(), key.as_str()) {
                self.entries[i].1 = value;
                proof {
                    let okv = old(self).kv();
                    assert(self.kv() =~= okv.update(i as int, (okv[i as int].0, value)));
                    lemma_assoc_map_update(okv, i as int, value);
                    assert(forall|x: int, y: int|
                        0 <= x < y < self.kv().len() ==> self.kv()[x].0 == okv[x].0
                            && self.kv()[y].0 == okv[y].0);
                }
                return;
            }
            i += 1;
        }
        self.entries.push((key, value));
        proof {
            let okv = old(self).kv();
            assert(self.kv() =~= okv.push((self.entries@.last().0@, value)));
            lemma_assoc_map_push(okv, self.entries@.last().0@, value);
            assert(forall|x: int, y: int|
                0 <= x < y < okv.len() ==> self.kv()[x].0 == okv[x].0
                    && self.kv()[y].0 == okv[y].0);
        }
    }

    /// A copy with the same contents.
    pub fn duplicate(&self) -> (r: Self)
        requires
            self.wf(),
        ensures
            r.wf(),
            r@ == self@,
    {
        let n = self.entries.len();
        let mut entries: Vec<(String, u64)> = Vec::new();
        let mut i: usize = 0;
        while i < n
            invariant
                n == self.entries@.len(),
                i <= n,
                entries@.len() == i,
                forall|j: int| 0 <= j < i ==> entries@[j].0@ == self.entries@[j].0@
                    && entries@[j].1 == self.entries@[j].1,
            decreases n - i,
        {
            entries.push((self.entries[i].0.clone(), self.entries[i].1));
            i += 1;
        }
        let r = CounterRecord { entries };
        proof {
            assert(r.kv() =~= self.kv());
        }
        r
    }

    /// The counter names, each once.
    pub fn keys(&self) -> (ks: Vec<String>)
        requires
            self.wf(),
        ensures
            ks@.len() == self@.dom().len(),
            forall|j: int| 0 <= j < ks@.len() ==> self@.contains_key(#[trigger] ks@[j]@),
            forall|i: int, j: int| 0 <= i < j < ks@.len() ==> ks@[i]@ != ks@[j]@,
            forall|k: Seq<char>| self@.contains_key(k) ==> exists|j: int|
                0 <= j < ks@.len() && #[trigger] ks@[j]@ == k,
    {
        let n = self.entries.len();
        let mut ks: Vec<String> = Vec::new();
        let mut i: usize = 0;
        while i < n
            invariant
                n == self.entries@.len(),
                i <= n,
                self.wf(),
                ks@.len() == i,
                forall|j: int| 0 <= j < i ==> ks@[j]@ == self.kv()[j].0,
            decreases n - i,
        {
            ks.push(self.entries[i].0.clone());
            i += 1;
        }
        proof {
            lemma_assoc_map_dom_len(self.kv());
            assert forall|j: int| 0 <= j < ks@.len() implies self@.contains_key(ks@[j]@) by {
                lemma_assoc_map_index(self.kv(), j);
            }
            assert forall|k: Seq<char>| self@.contains_key(k) implies exists|j: int|
                0 <= j < ks@.len() && #[trigger] ks@[j]@ == k by {
                lemma_assoc_map_contains(self.kv(), k);
                let j = choose|j: int| 0 <= j < self.kv().len() && self.kv()[j].0 == k;
                assert(ks@[j]@ == k);
            }
        }
        ks
    }
}

/// The value under `k`, or `default` when the record has no such counter.
pub open spec fn spec_get_or(m: Map<Seq<char>, u64>, k: Seq<char>, default: u64) -> u64 {
    if m.contains_key(k) {
        m[k]
    } else {
        default
    }
}

/// One counter's delta: the increase since the old sample, or the raw new
/// value when the counter went backwards (a reset or wrap is suspected).
pub open spec fn counter_delta(old_v: u64, new_v: u64) -> u64 {
    if new_v >= old_v {
        (new_v - old_v) as u64
    } else {
        new_v
    }
}

/// The displayed value of counter `k`: its delta against the old record,
/// where a counter absent from the old record counts as zero.
pub open spec fn spec_delta_value(
    old_m: Map<Seq<char>, u64>,
    new_m: Map<Seq<char>, u64>,
    k: Seq<char>,
) -> u64
    recommends
        new_m.contains_key(k),
{
    counter_delta(spec_get_or(old_m, k, 0), new_m[k])
}

/// Calculates the per-counter delta between two records.  The result has
/// exactly the new record's counter names; names only the old record knows
/// are dropped.
pub fn calc_counters_delta(old_map: &CounterRecord, new_map: &CounterRecord) -> (delta:
    CounterRecord)
    requires
        old_map.wf(),
        new_map.wf(),
    ensures
        delta.wf(),
        delta@.dom() =~= new_map@.dom(),
        forall|k: Seq<char>| new_map@.contains_key(k) ==> delta@[k] == spec_delta_value(
            old_map@,
            new_map@,
            k,
        ),
{
    let n = new_map.entries.len();
    let mut entries: Vec<(String, u64)> = Vec::new();
    let mut i: usize = 0;
    while i < n
        invariant
            n == new_map.entries@.len(),
            i <= n,
            old_map.wf(),
            new_map.wf(),
            entries@.len() == i,
            forall|j: int| 0 <= j < i ==> #[trigger] entries@[j].0@ == new_map.kv()[j].0
                && entries@[j].1 == spec_delta_value(old_map@, new_map@, new_map.kv()[j].0),
        decreases n - i,
    {
        let new_val = new_map.entries[i].1;
        let old_val = old_map.get_or(new_map.entries[i].0.as_str(), 0);
        let d = if new_val >= old_val {
            new_val - old_val
        } else {
            new_val
        };
        proof {
            lemma_assoc_map_index(new_map.kv(), i as int);
            assert(new_map.kv()[i as int] == (
                new_map.entries@[i as int].0@,
                new_map.entries@[i as int].1,
            ));
            assert(new_map@[new_map.kv()[i as int].0] == new_val);
            assert(d == spec_delta_value(old_map@, new_map@, new_map.kv()[i as int].0));
        }
        entries.push((new_map.entries[i].0.clone(), d));
        proof {
            assert(entries@[i as int].0@ == new_map.kv()[i as int].0);
            assert(entries@[i as int].1 == spec_delta_value(
                old_map@,
                new_map@,
                new_map.kv()[i as int].0,
            ));
        }
        i += 1;
    }
    let delta = CounterRecord { entries };
    proof {
        assert(delta.kv().len() == new_map.kv().len());
        assert(forall|j: int| 0 <= j < delta.kv().len() ==> #[trigger] delta.kv()[j].0
            == new_map.kv()[j].0);
        assert(unique_keys(delta.kv()));
        assert forall|k: Seq<char>| delta@.contains_key(k) == new_map@.contains_key(k) by {
            lemma_assoc_map_contains(delta.kv(), k);
            lemma_assoc_map_contains(new_map.kv(), k);
            if delta@.contains_key(k) {
                let j = choose|j: int| 0 <= j < delta.kv().len() && delta.kv()[j].0 == k;
                assert(new_map.kv()[j].0 == k);
            }
            if new_map@.contains_key(k) {
                let j = choose|j: int| 0 <= j < new_map.kv().len() && new_map.kv()[j].0 == k;
                assert(delta.kv()[j].0 == k);
            }
        }
        assert(delta@.dom() =~= new_map@.dom());
        assert forall|k: Seq<char>| new_map@.contains_key(k) implies delta@[k]
            == spec_delta_value(old_map@, new_map@, k) by {
            lemma_assoc_map_contains(new_map.kv(), k);
            let j = choose|j: int| 0 <= j < new_map.kv().len() && new_map.kv()[j].0 == k;
            lemma_assoc_map_index(new_map.kv(), j);
            lemma_assoc_map_index(delta.kv(), j);
        }
    }
    delta
}

/// Counters by query target: (LID, port) to record.
pub struct CounterStore {
    entries: Vec<(LidPort, CounterRecord)>,
}

impl View for CounterStore {
    type V = Map<LidPort, Map<Seq<char>, u64>>;

    closed spec fn view(&self) -> Map<LidPort, Map<Seq<char>, u64>> {
        assoc_map(self.kv())
    }
}

impl CounterStore {
    /// The entries, with records read as maps.
    pub closed spec fn kv(self) -> Seq<(LidPort, Map<Seq<char>, u64>)> {
        self.entries@.map_values(|e: (LidPort, CounterRecord)| (e.0, e.1@))
    }

    /// The stored targets, in insertion order.
    pub open spec fn spec_keys(self) -> Seq<LidPort> {
        self.kv().map_values(|e: (LidPort, Map<Seq<char>, u64>)| e.0)
    }

    /// The records, each well formed under its target, each target once.
    pub closed spec fn recs_wf(self) -> bool {
        forall|i: int| 0 <= i < self.entries@.len() ==> (#[trigger] self.entries@[i].1).wf()
    }

    pub open spec fn wf(self) -> bool {
        unique_keys(self.kv()) && self.recs_wf()
    }

    /// An empty store.
    pub fn new() -> (r: Self)
        ensures
            r@ == Map::<LidPort, Map<Seq<char>, u64>>::empty(),
            r.wf(),
            r.spec_keys().len() == 0,
    {
        let r = CounterStore { entries: Vec::new() };
        proof {
            assert(r.kv() =~= Seq::<(LidPort, Map<Seq<char>, u64>)>::empty());
        }
        r
    }

    /// How many targets the store holds.
    pub fn len(&self) -> (n: usize)
        requires
            self.wf(),
        ensures
            n == self@.dom().len(),
            n == self.spec_keys().len(),
    {
        proof {
            lemma_assoc_map_dom_len(self.kv());
        }
        self.entries.len()
    }

    pub fn is_empty(&self) -> (r: bool)
        requires
            self.wf(),
        ensures
            r == (self@.dom().len() == 0),
    {
        proof {
            lemma_assoc_map_dom_len(self.kv());
        }
        self.entries.is_empty()
    }

    /// The record stored for a target, if any.
    pub fn get(&self, key: LidPort) -> (r: Option<&CounterRecord>)
        requires
            self.wf(),
        ensures
            match r {
                Some(rec) => self@.contains_key(key) && rec@ == self@[key] && rec.wf(),
                None => !self@.contains_key(key),
            },
    {
        let n = self.entries.len();
        let mut i: usize = 0;
        while i < n
            invariant
                n == self.entries@.len(),
                i <= n,
                self.wf(),
                forall|j: int| 0 <= j < i ==> self.kv()[j].0 != key,
            decreases n - i,
        {
            if self.entries[i].0 == key {
                proof {
                    lemma_assoc_map_index(self.kv(), i as int);
                }
                return Some(&self.entries[i].1);
            }
            i += 1;
        }
        proof {
            lemma_assoc_map_contains(self.kv(), key);
        }
        None
    }

    /// Stores a record for a target, replacing any previous record.
    pub fn insert(&mut self, key: LidPort, rec: CounterRecord)
        requires
            old(self).wf(),
            rec.wf(),
        ensures
            final(self).wf(),
            final(self)@ == old(self)@.insert(key, rec@),
    {
        let ghost rec_view = rec@;
        let n = self.entries.len();
        let mut i: usize = 0;
        while i < n
            invariant
                *self == *old(self),
                n == self.entries@.len(),
                i <= n,
                old(self).wf(),
                rec.wf(),
                rec@ == rec_view,
                forall|j: int| 0 <= j < i ==> self.kv()[j].0 != key,
            decreases n - i,
        {
            if self.entries[i].0 == key {
                self.entries.remove(i);
                self.entries.insert(i, (key, rec));
                proof {
                    let okv = old(self).kv();
                    assert(self.entries@ =~= old(self).entries@.update(i as int, (key, rec)));
                    assert(self.entries@[i as int].0 == key);
                    assert(self.entries@[i as int].1@ == rec_view);
                    assert(self.entries@[i as int].1.wf());
                    assert(key == okv[i as int].0);
                    assert(self.kv() =~= okv.update(i as int, (okv[i as int].0, rec_view)));
                    lemma_assoc_map_update(okv, i as int, rec_view);
                    assert(forall|x: int|
                        0 <= x < self.kv().len() ==> #[trigger] self.kv()[x].0 == okv[x].0);
                    assert(unique_keys(self.kv()));
                    assert forall|x: int|
                        0 <= x < self.entries@.len() implies (#[trigger] self.entries@[x].1).wf()
                    by {
                        if x != i {
                            assert(self.entries@[x] == old(self).entries@[x]);
                            assert(old(self).entries@[x].1.wf());
                        }
                    }
                }
                return;
            }
            i += 1;
        }
        self.entries.push((key, rec));
        proof {
            let okv = old(self).kv();
            assert(self.kv() =~= okv.push((key, rec_view)));
            lemma_assoc_map_push(okv, key, rec_view);
            assert(forall|x: int|
                0 <= x < okv.len() ==> #[trigger] self.kv()[x].0 == okv[x].0);
            assert(unique_keys(self.kv()));
            assert forall|x: int|
                0 <= x < self.entries@.len() implies (#[trigger] self.entries@[x].1).wf()
            by {
                if x < self.entries@.len() - 1 {
                    assert(self.entries@[x] == old(self).entries@[x]);
                    assert(old(self).entries@[x].1.wf());
                }
            }
        }
    }

    /// Drops every entry.
    pub fn clear(&mut self)
        ensures
            final(self).wf(),
            final(self)@ == Map::<LidPort, Map<Seq<char>, u64>>::empty(),
            final(self).spec_keys().len() == 0,
    {
        self.entries.clear();
        proof {
            assert(self.kv() =~= Seq::<(LidPort, Map<Seq<char>, u64>)>::empty());
        }
    }

    /// A copy with the same contents.
    pub fn duplicate(&self) -> (r: Self)
        requires
            self.wf(),
        ensures
            r.wf(),
            r@ == self@,
    {
        let n = self.entries.len();
        let mut entries: Vec<(LidPort, CounterRecord)> = Vec::new();
        let mut i: usize = 0;
        while i < n
            invariant
                n == self.entries@.len(),
                i <= n,
                self.wf(),
                entries@.len() == i,
                forall|j: int| 0 <= j < i ==> #[trigger] entries@[j].0 == self.entries@[j].0
                    && entries@[j].1@ == self.entries@[j].1@ && entries@[j].1.wf(),
            decreases n - i,
        {
            let rec = self.entries[i].1.duplicate();
            entries.push((self.entries[i].0, rec));
            i += 1;
        }
        let r = CounterStore { entries };
        proof {
            assert(r.kv() =~= self.kv());
            assert forall|x: int|
                0 <= x < r.entries@.len() implies (#[trigger] r.entries@[x].1).wf() by {
                assert(r.entries@[x].0 == self.entries@[x].0);
            }
        }
        r
    }

    /// The stored target of each entry and its record, by entry position.
    pub fn entry_at(&self, i: usize) -> (r: (LidPort, &CounterRecord))
        requires
            self.wf(),
            i < self.spec_keys().len(),
        ensures
            r.0 == self.spec_keys()[i as int],
            self@.contains_key(r.0),
            r.1@ == self@[r.0],
            r.1.wf(),
    {
        proof {
            lemma_assoc_map_index(self.kv(), i as int);
        }
        (self.entries[i].0, &self.entries[i].1)
    }

    /// The targets the store holds, each once.
    pub proof fn lemma_keys(self)
        requires
            self.wf(),
        ensures
            self.spec_keys().len() == self@.dom().len(),
            forall|i: int, j: int| 0 <= i < j < self.spec_keys().len()
                ==> self.spec_keys()[i] != self.spec_keys()[j],
            forall|i: int| 0 <= i < self.spec_keys().len() ==> self@.contains_key(
                #[trigger] self.spec_keys()[i],
            ),
            forall|k: LidPort| self@.contains_key(k) ==> self.spec_keys().contains(k),
    {
        lemma_assoc_map_dom_len(self.kv());
        assert forall|i: int| 0 <= i < self.spec_keys().len() implies self@.contains_key(
            #[trigger] self.spec_keys()[i],
        ) by {
            lemma_assoc_map_index(self.kv(), i);
        }
        assert forall|k: LidPort| self@.contains_key(k) implies self.spec_keys().contains(k) by {
            lemma_assoc_map_contains(self.kv(), k);
            let j = choose|j: int| 0 <= j < self.kv().len() && self.kv()[j].0 == k;
            assert(self.spec_keys()[j] == k);
        }
    }

    /// Folds another store's entries into this one; the other store's
    /// record wins for a target both hold.
    pub fn merge(&mut self, other: &CounterStore)
        requires
            old(self).wf(),
            other.wf(),
        ensures
            final(self).wf(),
            final(self)@ == old(self)@.union_prefer_right(other@),
    {
        let n = other.entries.len();
        let mut i: usize = 0;
        while i < n
            invariant
                n == other.entries@.len(),
                i <= n,
                self.wf(),
                other.wf(),
                self@ == old(self)@.union_prefer_right(assoc_map(other.kv().take(i as int))),
            decreases n - i,
        {
            proof {
                assert(other.kv().take(i + 1).drop_last() =~= other.kv().take(i as int));
                assert(other.kv().take(i + 1).last() == other.kv()[i as int]);
            }
            let rec = other.entries[i].1.duplicate();
            self.insert(other.entries[i].0, rec);
            proof {
                assert(self@ =~= old(self)@.union_prefer_right(
                    assoc_map(other.kv().take(i + 1)),
                ));
            }
            i += 1;
        }
        proof {
            assert(other.kv().take(n as int) =~= other.kv());
        }
    }
}


/// The per-counter deltas of a whole record: exactly the new record's
/// counter names, each valued by its delta.
pub open spec fn spec_delta_map(
    old_m: Map<Seq<char>, u64>,
    new_m: Map<Seq<char>, u64>,
) -> Map<Seq<char>, u64> {
    Map::new(
        |k: Seq<char>| new_m.contains_key(k),
        |k: Seq<char>| spec_delta_value(old_m, new_m, k),
    )
}

/// What the display holds for target `k` after a counter reply: the raw
/// new record in Whole mode; in Delta mode its delta against the previous
/// sample, and in Baseline mode against the snapshot — the raw record
/// standing in where the reference store has no entry for the target.
pub open spec fn spec_display_record(
    mode: crate::app::CounterMode,
    prev: Map<LidPort, Map<Seq<char>, u64>>,
    base: Map<LidPort, Map<Seq<char>, u64>>,
    cur: Map<LidPort, Map<Seq<char>, u64>>,
    k: LidPort,
) -> Map<Seq<char>, u64>
    recommends
        cur.contains_key(k),
{
    match mode {
        crate::app::CounterMode::Whole => cur[k],
        crate::app::CounterMode::Delta => if prev.contains_key(k) {
            spec_delta_map(prev[k], cur[k])
        } else {
            cur[k]
        },
        crate::app::CounterMode::Baseline => if base.contains_key(k) {
            spec_delta_map(base[k], cur[k])
        } else {
            cur[k]
        },
    }
}

/// Derives the display store from the newest sample under the
/// presentation mode: one record per sampled target, raw in Whole mode
/// and a delta against the previous sample or the snapshot otherwise.
pub fn derive_display(
    mode: &crate::app::CounterMode,
    previous: &CounterStore,
    baseline: &CounterStore,
    current: &CounterStore,
) -> (display: CounterStore)
    requires
        previous.wf(),
        baseline.wf(),
        current.wf(),
    ensures
        display.wf(),
        display@.dom() =~= current@.dom(),
        forall|k: LidPort| #[trigger] current@.contains_key(k) ==> display@[k]
            == spec_display_record(*mode, previous@, baseline@, current@, k),
{
    if matches!(mode, crate::app::CounterMode::Whole) {
        let display = current.duplicate();
        return display;
    }
    let reference: &CounterStore = if matches!(mode, crate::app::CounterMode::Delta) {
        previous
    } else {
        baseline
    };
    proof {
        current.lemma_keys();
    }
    let n = current.len();
    let mut display = CounterStore::new();
    let mut i: usize = 0;
    while i < n
        invariant
            i <= n,
            n == current.spec_keys().len(),
            current.wf(),
            reference.wf(),
            display.wf(),
            *reference == if *mode is Delta {
                *previous
            } else {
                *baseline
            },
            !(*mode is Whole),
            forall|x: int, y: int| 0 <= x < y < current.spec_keys().len()
                ==> current.spec_keys()[x] != current.spec_keys()[y],
            forall|x: int| 0 <= x < current.spec_keys().len() ==> current@.contains_key(
                #[trigger] current.spec_keys()[x],
            ),
            forall|j: int| 0 <= j < i ==> display@.contains_key(
                #[trigger] current.spec_keys()[j],
            ) && display@[current.spec_keys()[j]] == spec_display_record(
                *mode,
                previous@,
                baseline@,
                current@,
                current.spec_keys()[j],
            ),
            forall|k: LidPort| #[trigger] display@.contains_key(k) ==> exists|j: int|
                0 <= j < i && current.spec_keys()[j] == k,
        decreases n - i,
    {
        let (key, rec) = current.entry_at(i);
        let d: CounterRecord = match reference.get(key) {
            Some(old_rec) => {
                let d = calc_counters_delta(old_rec, rec);
                proof {
                    assert forall|k2: Seq<char>| d@.contains_key(k2) == spec_delta_map(
                        reference@[key],
                        current@[key],
                    ).contains_key(k2) by {}
                    assert(d@ =~= spec_delta_map(reference@[key], current@[key]));
                }
                d
            },
            None => rec.duplicate(),
        };
        proof {
            assert(d@ == spec_display_record(*mode, previous@, baseline@, current@, key));
        }
        display.insert(key, d);
        i += 1;
    }
    proof {
        assert forall|k: LidPort| display@.contains_key(k) == current@.contains_key(k) by {
            if display@.contains_key(k) {
                let j = choose|j: int| 0 <= j < i && current.spec_keys()[j] == k;
                assert(current@.contains_key(current.spec_keys()[j]));
            }
            if current@.contains_key(k) {
                assert(current.spec_keys().contains(k));
                let j = choose|j: int|
                    0 <= j < current.spec_keys().len() && current.spec_keys()[j] == k;
                assert(display@.contains_key(current.spec_keys()[j]));
            }
        }
        assert(display@.dom() =~= current@.dom());
        assert forall|k: LidPort| #[trigger] current@.contains_key(k) implies display@[k]
            == spec_display_record(*mode, previous@, baseline@, current@, k) by {
            assert(current.spec_keys().contains(k));
            let j = choose|j: int|
                0 <= j < current.spec_keys().len() && current.spec_keys()[j] == k;
            assert(display@[current.spec_keys()[j]] == spec_display_record(
                *mode,
                previous@,
                baseline@,
                current@,
                current.spec_keys()[j],
            ));
        }
    }
    display
}

/// Law: whatever the mode, the record shown for a target holds exactly
/// the counter names of the target's newest sample.
pub proof fn lemma_display_record_keys(
    mode: crate::app::CounterMode,
    prev: Map<LidPort, Map<Seq<char>, u64>>,
    base: Map<LidPort, Map<Seq<char>, u64>>,
    cur: Map<LidPort, Map<Seq<char>, u64>>,
    k: LidPort,
)
    requires
        cur.contains_key(k),
    ensures
        spec_display_record(mode, prev, base, cur, k).dom() =~= cur[k].dom(),
{
}

/// Law: in Delta mode a counter that did not go backwards shows its
/// increase since the previous sample, and one that did shows its raw
/// new value; Baseline mode says the same against the snapshot.  A
/// counter the reference record lacks counts as zero there.
pub proof fn lemma_display_delta_value(
    mode: crate::app::CounterMode,
    prev: Map<LidPort, Map<Seq<char>, u64>>,
    base: Map<LidPort, Map<Seq<char>, u64>>,
    cur: Map<LidPort, Map<Seq<char>, u64>>,
    k: LidPort,
    name: Seq<char>,
)
    requires
        cur.contains_key(k),
        cur[k].contains_key(name),
        mode is Delta ==> prev.contains_key(k),
        mode is Baseline ==> base.contains_key(k),
        mode is Delta || mode is Baseline,
    ensures
        ({
            let reference = if mode is Delta {
                prev[k]
            } else {
                base[k]
            };
            let shown = spec_display_record(mode, prev, base, cur, k)[name];
            let old_v = spec_get_or(reference, name, 0);
            &&& old_v <= cur[k][name] ==> shown == cur[k][name] - old_v
            &&& old_v > cur[k][name] ==> shown == cur[k][name]
        }),
{
}

/// Law: re-deriving the display in Whole mode reproduces the sample.
pub proof fn lemma_whole_display(
    prev: Map<LidPort, Map<Seq<char>, u64>>,
    base: Map<LidPort, Map<Seq<char>, u64>>,
    cur: Map<LidPort, Map<Seq<char>, u64>>,
    k: LidPort,
)
    requires
        cur.contains_key(k),
    ensures
        spec_display_record(crate::app::CounterMode::Whole, prev, base, cur, k) == cur[k],
{
}

/// Law: right after a fresh Baseline snapshot, an unchanged counter
/// shows zero.
pub proof fn lemma_fresh_baseline_zero(
    prev: Map<LidPort, Map<Seq<char>, u64>>,
    base: Map<LidPort, Map<Seq<char>, u64>>,
    cur: Map<LidPort, Map<Seq<char>, u64>>,
    k: LidPort,
    name: Seq<char>,
)
    requires
        cur.contains_key(k),
        base.contains_key(k),
        cur[k].contains_key(name),
        base[k].contains_key(name),
        base[k][name] == cur[k][name],
    ensures
        spec_display_record(crate::app::CounterMode::Baseline, prev, base, cur, k)[name] == 0,
{
}

} // verus!
