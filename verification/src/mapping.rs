//! Rows of entries: finding the value under a key, and putting one there.

use vstd::prelude::*;
use crate::text::{
    lemma_text_order, lemma_text_order_transitive, same_text, str_precedes, text_before,
};
use crate::value::{entry_views_of, Entry, EntryView, Value, ValueView};

verus! {

/// Where the first entry with `key` stands, looking from `from` on.
pub open spec fn key_from(rows: Seq<EntryView>, key: Seq<char>, from: int) -> Option<int>
    decreases rows.len() - from,
{
    if from >= rows.len() {
        None
    } else if rows[from].key == key {
        Some(from)
    } else {
        key_from(rows, key, from + 1)
    }
}

/// Where the first entry with `key` stands.
pub open spec fn key_index(rows: Seq<EntryView>, key: Seq<char>) -> Option<int> {
    key_from(rows, key, 0)
}

/// The value under `key`: that of the first entry with this key.
pub open spec fn find(rows: Seq<EntryView>, key: Seq<char>) -> Option<ValueView> {
    match key_index(rows, key) {
        Some(at) => Some(rows[at].value),
        None => None,
    }
}

/// Where the first entry stands whose key comes after `key`, looking from
/// `from` on; the length of the row where there is none.
pub open spec fn slot_from(rows: Seq<EntryView>, key: Seq<char>, from: int) -> int
    decreases rows.len() - from,
{
    if from >= rows.len() {
        rows.len() as int
    } else if text_before(key, rows[from].key) {
        from
    } else {
        slot_from(rows, key, from + 1)
    }
}

/// The row with `value` under `key`. The first entry with the key takes the
/// value; where there is none, a new entry goes before the first entry
/// whose key comes after `key`, or to the end.
pub open spec fn put(rows: Seq<EntryView>, key: Seq<char>, value: ValueView) -> Seq<EntryView> {
    match key_index(rows, key) {
        Some(at) => rows.update(at, EntryView { key, value }),
        None => rows.insert(slot_from(rows, key, 0), EntryView { key, value }),
    }
}

/// Whether the keys of the row stand in strictly ascending order.
pub open spec fn ascending_keys(rows: Seq<EntryView>) -> bool {
    forall|i: int, j: int|
        0 <= i < j < rows.len() ==> text_before((#[trigger] rows[i]).key, (#[trigger] rows[j]).key)
}

/// An index that was found is in range, holds the key, and nothing before
/// it does; where none was found, no entry holds the key.
pub proof fn lemma_key_from(rows: Seq<EntryView>, key: Seq<char>, from: int)
    requires
        0 <= from,
    ensures
        match key_from(rows, key, from) {
            Some(at) => from <= at < rows.len() && rows[at].key == key && forall|j: int|
                from <= j < at ==> (#[trigger] rows[j]).key != key,
            None => forall|j: int| from <= j < rows.len() ==> (#[trigger] rows[j]).key != key,
        },
    decreases rows.len() - from,
{
    if from < rows.len() && rows[from].key != key {
        lemma_key_from(rows, key, from + 1);
    }
}

/// The first place from `from` on that holds `key` is its index.
pub proof fn lemma_key_is(rows: Seq<EntryView>, key: Seq<char>, from: int, at: int)
    requires
        0 <= from <= at < rows.len(),
        rows[at].key == key,
        forall|j: int| from <= j < at ==> (#[trigger] rows[j]).key != key,
    ensures
        key_from(rows, key, from) == Some(at),
    decreases at - from,
{
    if from < at {
        lemma_key_is(rows, key, from + 1, at);
    }
}

/// Where no place from `from` on holds `key`, it has no index.
pub proof fn lemma_key_none(rows: Seq<EntryView>, key: Seq<char>, from: int)
    requires
        0 <= from,
        forall|j: int| from <= j < rows.len() ==> (#[trigger] rows[j]).key != key,
    ensures
        key_from(rows, key, from) is None,
    decreases rows.len() - from,
{
    if from < rows.len() {
        lemma_key_none(rows, key, from + 1);
    }
}

/// The slot lies in the row or at its end; no key before it comes after
/// `key`, and the key at it does.
pub proof fn lemma_slot_from(rows: Seq<EntryView>, key: Seq<char>, from: int)
    requires
        0 <= from <= rows.len(),
    ensures
        from <= slot_from(rows, key, from) <= rows.len(),
        forall|j: int|
            from <= j < slot_from(rows, key, from) ==> !text_before(key, (#[trigger] rows[j]).key),
        slot_from(rows, key, from) < rows.len() ==> text_before(
            key,
            rows[slot_from(rows, key, from)].key,
        ),
    decreases rows.len() - from,
{
    if from < rows.len() && !text_before(key, rows[from].key) {
        lemma_slot_from(rows, key, from + 1);
    }
}

/// After `value` was put under `key`, it is what is found there, and what
/// is found under any other key is what was found before.
pub proof fn lemma_put_find(
    rows: Seq<EntryView>,
    key: Seq<char>,
    value: ValueView,
    other: Seq<char>,
)
    ensures
        find(put(rows, key, value), other) == if other == key {
            Some(value)
        } else {
            find(rows, other)
        },
{
    let after = put(rows, key, value);
    let entry = EntryView { key, value };
    lemma_key_from(rows, key, 0);
    lemma_key_from(rows, other, 0);
    match key_index(rows, key) {
        Some(at) => {
            if other == key {
                assert forall|j: int| 0 <= j < at implies (#[trigger] after[j]).key != key by {
                    assert(after[j] == rows[j]);
                }
                lemma_key_is(after, key, 0, at);
            } else {
                match key_index(rows, other) {
                    Some(p) => {
                        assert forall|j: int| 0 <= j < p implies (#[trigger] after[j]).key
                            != other by {
                            if j != at {
                                assert(after[j] == rows[j]);
                            }
                        }
                        lemma_key_is(after, other, 0, p);
                    },
                    None => {
                        assert forall|j: int| 0 <= j < after.len() implies (#[trigger] after[j]).key
                            != other by {
                            if j != at {
                                assert(after[j] == rows[j]);
                            }
                        }
                        lemma_key_none(after, other, 0);
                    },
                }
            }
        },
        None => {
            lemma_slot_from(rows, key, 0);
            let slot = slot_from(rows, key, 0);
            if other == key {
                assert forall|j: int| 0 <= j < slot implies (#[trigger] after[j]).key != key by {
                    assert(after[j] == rows[j]);
                }
                lemma_key_is(after, key, 0, slot);
            } else {
                match key_index(rows, other) {
                    Some(p) => {
                        let q = if p < slot {
                            p
                        } else {
                            p + 1
                        };
                        assert forall|j: int| 0 <= j < q implies (#[trigger] after[j]).key
                            != other by {
                            if j < slot {
                                assert(after[j] == rows[j]);
                            } else if j > slot {
                                assert(after[j] == rows[j - 1]);
                            }
                        }
                        lemma_key_is(after, other, 0, q);
                    },
                    None => {
                        assert forall|j: int| 0 <= j < after.len() implies (#[trigger] after[j]).key
                            != other by {
                            if j < slot {
                                assert(after[j] == rows[j]);
                            } else if j > slot {
                                assert(after[j] == rows[j - 1]);
                            }
                        }
                        lemma_key_none(after, other, 0);
                    },
                }
            }
        },
    }
}

/// Putting a value into a row with ascending keys leaves the keys ascending.
pub proof fn lemma_put_ascending(rows: Seq<EntryView>, key: Seq<char>, value: ValueView)
    requires
        ascending_keys(rows),
    ensures
        ascending_keys(put(rows, key, value)),
{
    let after = put(rows, key, value);
    lemma_key_from(rows, key, 0);
    match key_index(rows, key) {
        Some(at) => {
            assert forall|i: int, j: int| 0 <= i < j < after.len() implies text_before(
                (#[trigger] after[i]).key,
                (#[trigger] after[j]).key,
            ) by {
                assert(after[i].key == rows[i].key);
                assert(after[j].key == rows[j].key);
            }
        },
        None => {
            lemma_slot_from(rows, key, 0);
            let slot = slot_from(rows, key, 0);
            assert forall|i: int, j: int| 0 <= i < j < after.len() implies text_before(
                (#[trigger] after[i]).key,
                (#[trigger] after[j]).key,
            ) by {
                if j < slot {
                    assert(after[i] == rows[i] && after[j] == rows[j]);
                } else if i > slot {
                    assert(after[i] == rows[i - 1] && after[j] == rows[j - 1]);
                } else if i < slot && j > slot {
                    assert(after[i] == rows[i] && after[j] == rows[j - 1]);
                } else if j == slot {
                    assert(after[i] == rows[i]);
                    lemma_text_order(rows[i].key, key);
                } else {
                    assert(i == slot);
                    assert(after[j] == rows[j - 1]);
                    if j - 1 > slot {
                        assert(text_before(rows[slot].key, rows[j - 1].key));
                        lemma_text_order_transitive(key, rows[slot].key, rows[j - 1].key);
                    }
                }
            }
        },
    }
}

/// Every entry of the row after a put is the new entry or one of the old.
pub proof fn lemma_put_members(rows: Seq<EntryView>, key: Seq<char>, value: ValueView, at: int)
    requires
        0 <= at < put(rows, key, value).len(),
    ensures
        put(rows, key, value)[at] == (EntryView { key, value }) || exists|j: int|
            0 <= j < rows.len() && put(rows, key, value)[at] == #[trigger] rows[j],
{
    let after = put(rows, key, value);
    lemma_key_from(rows, key, 0);
    match key_index(rows, key) {
        Some(p) => {
            if at != p {
                assert(after[at] == rows[at]);
            }
        },
        None => {
            lemma_slot_from(rows, key, 0);
            let slot = slot_from(rows, key, 0);
            if at < slot {
                assert(after[at] == rows[at]);
            } else if at > slot {
                assert(after[at] == rows[at - 1]);
            }
        },
    }
}

/// In a row with ascending keys, the value under the key of an entry is
/// the value of that entry.
pub proof fn lemma_ascending_find(rows: Seq<EntryView>, at: int)
    requires
        ascending_keys(rows),
        0 <= at < rows.len(),
    ensures
        key_index(rows, rows[at].key) == Some(at),
        find(rows, rows[at].key) == Some(rows[at].value),
{
    assert forall|j: int| 0 <= j < at implies (#[trigger] rows[j]).key != rows[at].key by {
        assert(text_before(rows[j].key, rows[at].key));
        lemma_text_order(rows[j].key, rows[at].key);
    }
    lemma_key_is(rows, rows[at].key, 0, at);
}

/// Two rows with ascending keys that hold the same value under every key
/// are the same row: the order of the entries says nothing of how the row
/// was built.
pub proof fn lemma_ascending_rows_equal(a: Seq<EntryView>, b: Seq<EntryView>)
    requires
        ascending_keys(a),
        ascending_keys(b),
        forall|key: Seq<char>| find(a, key) == find(b, key),
    ensures
        a == b,
    decreases a.len(),
{
    if a.len() == 0 {
        if b.len() > 0 {
            lemma_ascending_find(b, 0);
            lemma_key_from(a, b[0].key, 0);
        }
        assert(a =~= b);
    } else {
        lemma_ascending_find(a, 0);
        lemma_key_from(b, a[0].key, 0);
        let j = key_index(b, a[0].key)->0;
        lemma_ascending_find(b, 0);
        lemma_key_from(a, b[0].key, 0);
        let i = key_index(a, b[0].key)->0;
        if j > 0 {
            assert(text_before(b[0].key, b[j].key));
            if i > 0 {
                assert(text_before(a[0].key, a[i].key));
            }
            lemma_text_order(a[0].key, b[0].key);
        }
        assert(a[0] == b[0]);
        let ta = a.skip(1);
        let tb = b.skip(1);
        assert forall|x: int, y: int| 0 <= x < y < ta.len() implies text_before(
            (#[trigger] ta[x]).key,
            (#[trigger] ta[y]).key,
        ) by {
            assert(text_before(a[x + 1].key, a[y + 1].key));
        }
        assert forall|x: int, y: int| 0 <= x < y < tb.len() implies text_before(
            (#[trigger] tb[x]).key,
            (#[trigger] tb[y]).key,
        ) by {
            assert(text_before(b[x + 1].key, b[y + 1].key));
        }
        assert forall|key: Seq<char>| find(ta, key) == find(tb, key) by {
            lemma_find_in_tail(a, key);
            lemma_find_in_tail(b, key);
        }
        lemma_ascending_rows_equal(ta, tb);
        assert(a =~= seq![a[0]] + ta);
        assert(b =~= seq![b[0]] + tb);
    }
}

/// In a row with ascending keys, what is found behind the first entry is
/// what is found in the whole row, but for the key of the first entry,
/// which is not found behind it.
pub proof fn lemma_find_in_tail(rows: Seq<EntryView>, key: Seq<char>)
    requires
        ascending_keys(rows),
        rows.len() > 0,
    ensures
        find(rows.skip(1), key) == if key == rows[0].key {
            None
        } else {
            find(rows, key)
        },
{
    let tail = rows.skip(1);
    lemma_key_from(rows, key, 0);
    if key == rows[0].key {
        assert forall|j: int| 0 <= j < tail.len() implies (#[trigger] tail[j]).key != key by {
            assert(text_before(rows[0].key, rows[j + 1].key));
            lemma_text_order(rows[0].key, rows[j + 1].key);
        }
        lemma_key_none(tail, key, 0);
    } else {
        match key_index(rows, key) {
            Some(at) => {
                assert forall|j: int| 0 <= j < at - 1 implies (#[trigger] tail[j]).key != key by {
                    assert(tail[j] == rows[j + 1]);
                }
                assert(tail[at - 1] == rows[at]);
                lemma_key_is(tail, key, 0, at - 1);
            },
            None => {
                assert forall|j: int| 0 <= j < tail.len() implies (#[trigger] tail[j]).key
                    != key by {
                    assert(tail[j] == rows[j + 1]);
                }
                lemma_key_none(tail, key, 0);
            },
        }
    }
}

/// Into a row with ascending keys, values under two different keys can be
/// put in either order: the row that comes out is the same.
pub proof fn lemma_put_in_either_order(
    rows: Seq<EntryView>,
    first: Seq<char>,
    one: ValueView,
    second: Seq<char>,
    other: ValueView,
)
    requires
        ascending_keys(rows),
        first != second,
    ensures
        put(put(rows, first, one), second, other) == put(put(rows, second, other), first, one),
{
    let a = put(put(rows, first, one), second, other);
    let b = put(put(rows, second, other), first, one);
    lemma_put_ascending(rows, first, one);
    lemma_put_ascending(put(rows, first, one), second, other);
    lemma_put_ascending(rows, second, other);
    lemma_put_ascending(put(rows, second, other), first, one);
    assert forall|key: Seq<char>| find(a, key) == find(b, key) by {
        lemma_put_find(put(rows, first, one), second, other, key);
        lemma_put_find(rows, first, one, key);
        lemma_put_find(put(rows, second, other), first, one, key);
        lemma_put_find(rows, second, other, key);
    }
    lemma_ascending_rows_equal(a, b);
}

/// Whether the value is in its one form: in every mapping in it, the keys
/// stand in strictly ascending order, so that no key stands twice and the
/// order says nothing of how the mapping was built.
pub open spec fn canonical(value: ValueView) -> bool
    decreases value,
{
    match value {
        ValueView::Mapping(entries) => ascending_keys(entries) && forall|i: int|
            0 <= i < entries.len() ==> canonical((#[trigger] entries[i]).value),
        ValueView::Array(items) => forall|i: int|
            0 <= i < items.len() ==> canonical(#[trigger] items[i]),
        _ => true,
    }
}

/// Where the first entry with `key` stands.
pub fn entry_index(entries: &Vec<Entry>, key: &str) -> (r: Option<usize>)
    ensures
        match r {
            Some(at) => at < entries.len() && key_index(entry_views_of(entries@), key@) == Some(
                at as int,
            ),
            None => key_index(entry_views_of(entries@), key@) is None,
        },
{
    let ghost rows = entry_views_of(entries@);
    let mut i: usize = 0;
    while i < entries.len()
        invariant
            i <= entries.len(),
            rows == entry_views_of(entries@),
            forall|j: int| 0 <= j < i ==> (#[trigger] rows[j]).key != key@,
        decreases entries.len() - i,
    {
        if same_text(entries[i].key.as_str(), key) {
            proof {
                lemma_key_is(rows, key@, 0, i as int);
            }
            return Some(i);
        }
        i += 1;
    }
    proof {
        lemma_key_none(rows, key@, 0);
    }
    None
}

/// Where a new entry with `key` goes.
pub fn entry_slot(entries: &Vec<Entry>, key: &str) -> (slot: usize)
    ensures
        slot <= entries.len(),
        slot == slot_from(entry_views_of(entries@), key@, 0),
{
    let ghost rows = entry_views_of(entries@);
    let mut i: usize = 0;
    while i < entries.len() && !str_precedes(key, entries[i].key.as_str())
        invariant
            i <= entries.len(),
            rows == entry_views_of(entries@),
            slot_from(rows, key@, 0) == slot_from(rows, key@, i as int),
        decreases entries.len() - i,
    {
        i += 1;
    }
    i
}

/// The value under `key` in the row.
pub fn entry_value<'a>(entries: &'a Vec<Entry>, key: &str) -> (r: Option<&'a Value>)
    ensures
        match r {
            Some(v) => find(entry_views_of(entries@), key@) == Some(v@),
            None => find(entry_views_of(entries@), key@) is None,
        },
{
    match entry_index(entries, key) {
        Some(at) => Some(&entries[at].value),
        None => None,
    }
}

/// Puts `value` under `key` in the row.
pub fn put_entry(entries: &mut Vec<Entry>, key: &str, value: Value)
    ensures
        entry_views_of(final(entries)@) == put(entry_views_of(old(entries)@), key@, value@),
{
    let ghost rows = entry_views_of(entries@);
    let entry = Entry { key: key.to_owned(), value };
    match entry_index(entries, key) {
        Some(at) => {
            entries.set(at, entry);
            proof {
                assert(entry_views_of(entries@) =~= rows.update(at as int, entry@));
            }
        },
        None => {
            let slot = entry_slot(entries, key);
            proof {
                lemma_slot_from(rows, key@, 0);
            }
            entries.insert(slot, entry);
            proof {
                assert(entry_views_of(entries@) =~= rows.insert(slot as int, entry@));
            }
        },
    }
}

} // verus!
