//! The registry of counters, and the snapshots taken of it.

use vstd::prelude::*;
use crate::metrics::metric::{Tag, TagView};
use crate::text::same_text;

verus! {

/// What a counter is known by: its name and the labels on it.
pub struct KeyView {
    pub name: Seq<char>,
    pub labels: Seq<TagView>,
}

/// The mathematical content of a [`Counter`].
pub struct CounterView {
    pub key: KeyView,
    pub total: u64,
}

/// A counter: a name, labels, and the sum of what was counted under them.
#[derive(Debug, PartialEq, Eq)]
pub struct Counter {
    pub name: String,
    pub labels: Vec<Tag>,
    pub total: u64,
}

/// The content of a row of labels.
pub open spec fn label_views(labels: Seq<Tag>) -> Seq<TagView> {
    Seq::new(labels.len(), |i: int| labels[i]@)
}

impl View for Counter {
    type V = CounterView;

    open spec fn view(&self) -> CounterView {
        CounterView {
            key: KeyView { name: self.name@, labels: label_views(self.labels@) },
            total: self.total,
        }
    }
}

/// The content of a row of counters.
pub open spec fn counter_views(counters: Seq<Counter>) -> Seq<CounterView> {
    Seq::new(counters.len(), |i: int| counters[i]@)
}

/// The keys of a row of counters.
pub open spec fn keys_of(counters: Seq<CounterView>) -> Seq<KeyView> {
    Seq::new(counters.len(), |i: int| counters[i].key)
}

/// The sum of two totals, wrapping around at the top.
pub open spec fn wrapped_sum(a: u64, b: u64) -> u64 {
    if a + b > u64::MAX {
        (a + b - 0x1_0000_0000_0000_0000) as u64
    } else {
        (a + b) as u64
    }
}

/// The counters after `amount` was counted under `key`: the counter with
/// that key grows by it, wrapping around at the top; where there is none
/// yet, a new counter joins the row at its end.
pub open spec fn record(counters: Seq<CounterView>, key: KeyView, amount: u64) -> Seq<
    CounterView,
> {
    match keys_of(counters).index_of_first(key) {
        Some(at) => counters.update(
            at,
            CounterView { key, total: wrapped_sum(counters[at].total, amount) },
        ),
        None => counters.push(CounterView { key, total: amount }),
    }
}

/// The counters after one was counted under each of `keys` in turn,
/// starting from none.
pub open spec fn recorded(keys: Seq<KeyView>) -> Seq<CounterView>
    decreases keys.len(),
{
    if keys.len() == 0 {
        Seq::empty()
    } else {
        record(recorded(keys.drop_last()), keys.last(), 1)
    }
}

/// Counting under a key leaves a row without twice the same key as such
/// a row, and adds the key to those that are there.
pub proof fn lemma_record_keys(counters: Seq<CounterView>, key: KeyView, amount: u64)
    requires
        keys_of(counters).no_duplicates(),
    ensures
        keys_of(record(counters, key, amount)).no_duplicates(),
        keys_of(record(counters, key, amount)).to_set() == keys_of(counters).to_set().insert(key),
        keys_of(counters).contains(key) ==> record(counters, key, amount).len() == counters.len(),
        !keys_of(counters).contains(key) ==> record(counters, key, amount).len() == counters.len()
            + 1,
{
    let before = keys_of(counters);
    let after = keys_of(record(counters, key, amount));
    before.index_of_first_ensures(key);
    match before.index_of_first(key) {
        Some(at) => {
            assert(after =~= before);
            assert(before.to_set().insert(key) =~= before.to_set());
        },
        None => {
            assert(after =~= before.push(key));
            assert forall|i: int, j: int| 0 <= i < after.len() && 0 <= j < after.len() && i
                != j implies after[i] != after[j] by {
                if i < before.len() && j < before.len() {
                    assert(before[i] != before[j]);
                } else if i < before.len() {
                    assert(before.contains(before[i]));
                } else {
                    assert(before.contains(before[j]));
                }
            }
            assert forall|k: KeyView| after.to_set().contains(k) <==> before.to_set().insert(
                key,
            ).contains(k) by {
                if after.contains(k) {
                    let i = choose|i: int| 0 <= i < after.len() && after[i] == k;
                    if i < before.len() {
                        assert(before[i] == k);
                        assert(before.contains(k));
                    }
                }
                if before.contains(k) {
                    let i = choose|i: int| 0 <= i < before.len() && before[i] == k;
                    assert(after[i] == k);
                }
                if k == key {
                    assert(after[before.len() as int] == k);
                }
            }
            assert(after.to_set() =~= before.to_set().insert(key));
        },
    }
}

/// After one was counted under each of `keys`, starting from none, there
/// is exactly one counter for each different key: as many counters as
/// there are different keys among `keys`.
pub proof fn lemma_one_counter_per_key(keys: Seq<KeyView>)
    ensures
        keys_of(recorded(keys)).no_duplicates(),
        keys_of(recorded(keys)).to_set() == keys.to_set(),
        recorded(keys).len() == keys.to_set().len(),
        keys.no_duplicates() ==> recorded(keys).len() == keys.len(),
    decreases keys.len(),
{
    if keys.len() == 0 {
        assert(keys_of(recorded(keys)) =~= Seq::<KeyView>::empty());
        assert(keys.to_set() =~= Set::<KeyView>::empty());
        assert(keys_of(recorded(keys)).to_set() =~= Set::<KeyView>::empty());
    } else {
        let earlier = keys.drop_last();
        lemma_one_counter_per_key(earlier);
        lemma_record_keys(recorded(earlier), keys.last(), 1);
        assert(keys.to_set() =~= earlier.to_set().insert(keys.last())) by {
            assert forall|k: KeyView| keys.to_set().contains(k) <==> earlier.to_set().insert(
                keys.last(),
            ).contains(k) by {
                if keys.contains(k) {
                    let i = choose|i: int| 0 <= i < keys.len() && keys[i] == k;
                    if i < earlier.len() {
                        assert(earlier[i] == k);
                        assert(earlier.contains(k));
                    }
                }
                if earlier.contains(k) {
                    let i = choose|i: int| 0 <= i < earlier.len() && earlier[i] == k;
                    assert(keys[i] == k);
                }
                if k == keys.last() {
                    assert(keys[keys.len() - 1] == k);
                }
            }
        }
    }
    keys_of(recorded(keys)).unique_seq_to_set();
    assert(keys_of(recorded(keys)).len() == recorded(keys).len());
    if keys.no_duplicates() {
        keys.unique_seq_to_set();
    }
}

/// A second label with the same content.
pub fn duplicate_tag(tag: &Tag) -> (copy: Tag)
    ensures
        copy@ == tag@,
{
    Tag { key: tag.key.clone(), value: tag.value.clone() }
}

/// A second row of labels with the same content.
pub fn duplicate_labels(labels: &Vec<Tag>) -> (copies: Vec<Tag>)
    ensures
        label_views(copies@) == label_views(labels@),
{
    let mut copies: Vec<Tag> = Vec::new();
    let mut i: usize = 0;
    while i < labels.len()
        invariant
            i <= labels.len(),
            copies.len() == i,
            forall|j: int| 0 <= j < i ==> copies@[j]@ == labels@[j]@,
        decreases labels.len() - i,
    {
        copies.push(duplicate_tag(&labels[i]));
        i += 1;
    }
    proof {
        assert(label_views(copies@) =~= label_views(labels@));
    }
    copies
}

/// Whether two rows of labels hold the same labels in the same order.
pub fn same_labels(a: &Vec<Tag>, b: &Vec<Tag>) -> (r: bool)
    ensures
        r == (label_views(a@) == label_views(b@)),
{
    if a.len() != b.len() {
        proof {
            assert(label_views(a@).len() != label_views(b@).len());
        }
        return false;
    }
    let mut i: usize = 0;
    while i < a.len()
        invariant
            i <= a.len(),
            a.len() == b.len(),
            forall|j: int| 0 <= j < i ==> a@[j]@ == b@[j]@,
        decreases a.len() - i,
    {
        if !same_text(a[i].key.as_str(), b[i].key.as_str()) || !same_text(
            a[i].value.as_str(),
            b[i].value.as_str(),
        ) {
            proof {
                assert(label_views(a@)[i as int] == a@[i as int]@);
                assert(label_views(b@)[i as int] == b@[i as int]@);
            }
            return false;
        }
        i += 1;
    }
    proof {
        assert(label_views(a@) =~= label_views(b@));
    }
    true
}

impl Counter {
    /// A second counter with the same content.
    pub fn duplicate(&self) -> (copy: Counter)
        ensures
            copy@ == self@,
    {
        Counter {
            name: self.name.clone(),
            labels: duplicate_labels(&self.labels),
            total: self.total,
        }
    }
}

/// The counters of a process, one for each name and row of labels under
/// which something was counted.
pub struct Registry {
    counters: Vec<Counter>,
}

impl View for Registry {
    type V = Seq<CounterView>;

    closed spec fn view(&self) -> Seq<CounterView> {
        counter_views(self.counters@)
    }
}

/// What was captured of a registry at one moment: its counters, in the
/// order in which they were first counted under.
pub struct Snapshot {
    counters: Vec<Counter>,
}

impl View for Snapshot {
    type V = Seq<CounterView>;

    closed spec fn view(&self) -> Seq<CounterView> {
        counter_views(self.counters@)
    }
}

impl Registry {
    #[verifier::type_invariant]
    spec fn one_counter_per_key(self) -> bool {
        keys_of(counter_views(self.counters@)).no_duplicates()
    }

    /// The registry without counters.
    pub fn new() -> (registry: Registry)
        ensures
            registry@ == Seq::<CounterView>::empty(),
    {
        let registry = Registry { counters: Vec::new() };
        proof {
            assert(counter_views(registry.counters@) =~= Seq::<CounterView>::empty());
        }
        registry
    }

    /// Counts `amount` under `name` and `labels`.
    #[verifier::loop_isolation(false)]
    pub fn counter(&mut self, name: &str, labels: Vec<Tag>, amount: u64)
        ensures
            final(self)@ == record(
                old(self)@,
                KeyView { name: name@, labels: label_views(labels@) },
                amount,
            ),
            keys_of(old(self)@).no_duplicates(),
            keys_of(final(self)@).no_duplicates(),
    {
        proof {
            use_type_invariant(&*self);
        }
        let ghost key = KeyView { name: name@, labels: label_views(labels@) };
        let ghost before = counter_views(self.counters@);
        proof {
            lemma_record_keys(before, key, amount);
            keys_of(before).index_of_first_ensures(key);
        }
        let mut taken = Registry::new();
        std::mem::swap(self, &mut taken);
        let mut counters = taken.counters;
        let mut i: usize = 0;
        while i < counters.len()
            invariant
                i <= counters.len(),
                before == counter_views(counters@),
                forall|j: int| 0 <= j < i ==> (#[trigger] keys_of(before)[j]) != key,
            decreases counters.len() - i,
        {
            if same_text(counters[i].name.as_str(), name) && same_labels(
                &counters[i].labels,
                &labels,
            ) {
                proof {
                    assert(keys_of(before)[i as int] == key);
                    assert(keys_of(before).contains(key));
                    let first = keys_of(before).index_of_first(key)->0;
                    assert(first == i) by {
                        if first != i {
                            assert(keys_of(before)[first] == keys_of(before)[i as int]);
                        }
                    }
                }
                let held = counters.remove(i);
                let grown = Counter {
                    name: held.name,
                    labels: held.labels,
                    total: held.total.wrapping_add(amount),
                };
                counters.insert(i, grown);
                proof {
                    assert(counter_views(counters@) =~= record(before, key, amount));
                }
                *self = Registry { counters };
                return ;
            } else {
                proof {
                    assert(keys_of(before)[i as int] == counters@[i as int]@.key);
                }
            }
            i += 1;
        }
        let fresh = Counter { name: name.to_owned(), labels, total: amount };
        proof {
            if keys_of(before).contains(key) {
                let j = choose|j: int| 0 <= j < keys_of(before).len() && keys_of(before)[j] == key;
                assert(false);
            }
        }
        counters.push(fresh);
        proof {
            assert(counter_views(counters@) =~= record(before, key, amount));
        }
        *self = Registry { counters };
    }

    /// The number of counters: that of the different keys under which
    /// something was counted.
    pub fn cardinality(&self) -> (n: usize)
        ensures
            n == self@.len(),
            n == keys_of(self@).to_set().len(),
    {
        proof {
            use_type_invariant(self);
            keys_of(self@).unique_seq_to_set();
        }
        self.counters.len()
    }

    /// Captures the counters as they are.
    pub fn snapshot(&self) -> (snapshot: Snapshot)
        ensures
            snapshot@ == self@,
    {
        let mut copies: Vec<Counter> = Vec::new();
        let mut i: usize = 0;
        while i < self.counters.len()
            invariant
                i <= self.counters.len(),
                copies.len() == i,
                forall|j: int| 0 <= j < i ==> copies@[j]@ == self.counters@[j]@,
            decreases self.counters.len() - i,
        {
            copies.push(self.counters[i].duplicate());
            i += 1;
        }
        proof {
            assert(counter_views(copies@) =~= counter_views(self.counters@));
        }
        Snapshot { counters: copies }
    }

    /// Takes every counter out.
    pub fn reset(&mut self)
        ensures
            final(self)@ == Seq::<CounterView>::empty(),
    {
        self.counters = Vec::new();
        proof {
            assert(counter_views(self.counters@) =~= Seq::<CounterView>::empty());
        }
    }
}

impl Snapshot {
    /// The number of counters captured.
    pub fn len(&self) -> (n: usize)
        ensures
            n == self@.len(),
    {
        self.counters.len()
    }

    /// The bounds on how many counters the snapshot hands out, the lower
    /// and the upper: both are the number of counters captured.
    pub fn size_hint(&self) -> (bounds: (usize, Option<usize>))
        ensures
            bounds.0 == self@.len(),
            bounds.1 == Some(bounds.0),
    {
        let n = self.counters.len();
        (n, Some(n))
    }

    /// The counter at position `at`.
    pub fn get(&self, at: usize) -> (r: Option<&Counter>)
        ensures
            match r {
                Some(counter) => at < self@.len() && counter@ == self@[at as int],
                None => at >= self@.len(),
            },
    {
        if at < self.counters.len() {
            Some(&self.counters[at])
        } else {
            None
        }
    }
}

} // verus!
