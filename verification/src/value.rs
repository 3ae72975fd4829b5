//! Runtime values and their mathematical content.

use vstd::prelude::*;
use crate::kind::{Kind, Variant};
use crate::number::{Float, FloatView};
use crate::pattern::Regex;
use crate::time::{Instant, Timestamp};

verus! {

/// The mathematical content of a [`Value`]. The entries of a mapping stand
/// in the order in which the value holds them.
pub enum ValueView {
    Bytes(Seq<u8>),
    Integer(int),
    Float(FloatView),
    Boolean(bool),
    Timestamp(Instant),
    Regex(Seq<char>),
    Null,
    Mapping(Seq<EntryView>),
    Array(Seq<ValueView>),
}

/// The mathematical content of an [`Entry`].
pub struct EntryView {
    pub key: Seq<char>,
    pub value: ValueView,
}

impl ValueView {
    /// The variant of the value.
    pub open spec fn variant(self) -> Variant {
        match self {
            ValueView::Bytes(_) => Variant::Bytes,
            ValueView::Integer(_) => Variant::Integer,
            ValueView::Float(_) => Variant::Float,
            ValueView::Boolean(_) => Variant::Boolean,
            ValueView::Timestamp(_) => Variant::Timestamp,
            ValueView::Regex(_) => Variant::Regex,
            ValueView::Null => Variant::Null,
            ValueView::Mapping(_) => Variant::Mapping,
            ValueView::Array(_) => Variant::Array,
        }
    }
}

/// A runtime value. Expressions produce new values and never change one
/// that exists.
#[derive(Debug, PartialEq, Eq)]
pub enum Value {
    /// An opaque byte string.
    Bytes(Vec<u8>),
    Integer(i64),
    Float(Float),
    Boolean(bool),
    Timestamp(Timestamp),
    Regex(Regex),
    Null,
    /// Values under text keys.
    Mapping(Vec<Entry>),
    /// Values in a row.
    Array(Vec<Value>),
}

/// A key of a mapping and the value under it.
#[derive(Debug, PartialEq, Eq)]
pub struct Entry {
    pub key: String,
    pub value: Value,
}

impl View for Entry {
    type V = EntryView;

    open spec fn view(&self) -> EntryView {
        EntryView { key: self.key@, value: self.value@ }
    }
}

impl View for Value {
    type V = ValueView;

    open spec fn view(&self) -> ValueView
        decreases self,
    {
        match self {
            Value::Bytes(b) => ValueView::Bytes(b@),
            Value::Integer(i) => ValueView::Integer(*i as int),
            Value::Float(f) => ValueView::Float(f@),
            Value::Boolean(b) => ValueView::Boolean(*b),
            Value::Timestamp(t) => ValueView::Timestamp(t@),
            Value::Regex(r) => ValueView::Regex(r@),
            Value::Null => ValueView::Null,
            Value::Mapping(entries) => ValueView::Mapping(entries_content(*entries)),
            Value::Array(items) => ValueView::Array(items_content(*items)),
        }
    }
}

/// The content of the values that an array holds. This is [`views_of`]
/// on the items, in the form by which the content of a value is defined.
pub open spec fn items_content(items: Vec<Value>) -> Seq<ValueView>
    decreases items,
{
    Seq::new(
        items@.len(),
        |i: int|
            if 0 <= i < items@.len() {
                items@[i].view()
            } else {
                ValueView::Null
            },
    )
}

/// The content of the entries that a mapping holds. This is
/// [`entry_views_of`] on the entries, in the form by which the content of a
/// value is defined.
pub open spec fn entries_content(entries: Vec<Entry>) -> Seq<EntryView>
    decreases entries,
{
    Seq::new(
        entries@.len(),
        |i: int|
            if 0 <= i < entries@.len() {
                EntryView { key: entries@[i].key@, value: entries@[i].value.view() }
            } else {
                EntryView { key: Seq::empty(), value: ValueView::Null }
            },
    )
}

/// The content of a row of values.
pub open spec fn views_of(items: Seq<Value>) -> Seq<ValueView> {
    Seq::new(items.len(), |i: int| items[i]@)
}

/// The content of a row of entries.
pub open spec fn entry_views_of(entries: Seq<Entry>) -> Seq<EntryView> {
    Seq::new(entries.len(), |i: int| entries[i]@)
}

/// What an array and a mapping hold is the content of their rows.
pub proof fn lemma_view_of_rows(v: Value)
    ensures
        v matches Value::Array(items) ==> v@ == ValueView::Array(views_of(items@)),
        v matches Value::Mapping(entries) ==> v@ == ValueView::Mapping(entry_views_of(entries@)),
{
    match v {
        Value::Array(items) => {
            assert(items_content(items) =~= views_of(items@));
        },
        Value::Mapping(entries) => {
            assert(entries_content(entries) =~= entry_views_of(entries@));
        },
        _ => {},
    }
}

/// A second byte string with the same bytes.
pub fn duplicate_bytes(bytes: &Vec<u8>) -> (out: Vec<u8>)
    ensures
        out@ == bytes@,
{
    let mut out: Vec<u8> = Vec::new();
    let mut i: usize = 0;
    while i < bytes.len()
        invariant
            i <= bytes.len(),
            out@ == bytes@.take(i as int),
        decreases bytes.len() - i,
    {
        proof {
            assert(bytes@.take(i + 1) =~= bytes@.take(i as int).push(bytes@[i as int]));
        }
        out.push(bytes[i]);
        i += 1;
    }
    proof {
        assert(bytes@.take(bytes.len() as int) =~= bytes@);
    }
    out
}

impl Value {
    /// The variant of the value.
    pub fn variant(&self) -> (v: Variant)
        ensures
            v == self@.variant(),
    {
        match self {
            Value::Bytes(_) => Variant::Bytes,
            Value::Integer(_) => Variant::Integer,
            Value::Float(_) => Variant::Float,
            Value::Boolean(_) => Variant::Boolean,
            Value::Timestamp(_) => Variant::Timestamp,
            Value::Regex(_) => Variant::Regex,
            Value::Null => Variant::Null,
            Value::Mapping(_) => Variant::Mapping,
            Value::Array(_) => Variant::Array,
        }
    }

    /// The kind that holds the variant of the value and no other.
    pub fn kind(&self) -> (k: Kind)
        ensures
            k@ == set![self@.variant()],
    {
        Kind::exactly(self.variant())
    }

    /// The byte string that holds the UTF-8 bytes of `text`.
    pub fn from_text(text: &str) -> (v: Value)
        ensures
            v@ == ValueView::Bytes(vstd::utf8::encode_utf8(text@)),
    {
        Value::Bytes(vstd::slice::slice_to_vec(text.as_bytes()))
    }

    /// A second value with the same content.
    pub fn duplicate(&self) -> (out: Value)
        ensures
            out@ == self@,
        decreases self,
    {
        match self {
            Value::Bytes(b) => Value::Bytes(duplicate_bytes(b)),
            Value::Integer(i) => Value::Integer(*i),
            Value::Float(f) => Value::Float(f.duplicate()),
            Value::Boolean(b) => Value::Boolean(*b),
            Value::Timestamp(t) => Value::Timestamp(*t),
            Value::Regex(r) => Value::Regex(r.duplicate()),
            Value::Null => Value::Null,
            Value::Mapping(entries) => {
                let out = Value::Mapping(duplicate_entries(entries));
                proof {
                    lemma_view_of_rows(out);
                    lemma_view_of_rows(*self);
                }
                out
            },
            Value::Array(items) => {
                let out = Value::Array(duplicate_items(items));
                proof {
                    lemma_view_of_rows(out);
                    lemma_view_of_rows(*self);
                }
                out
            },
        }
    }
}

/// A second row of values with the same content.
pub fn duplicate_items(items: &Vec<Value>) -> (copies: Vec<Value>)
    ensures
        views_of(copies@) == views_of(items@),
    decreases items,
{
    let mut copies: Vec<Value> = Vec::new();
    let mut i: usize = 0;
    while i < items.len()
        invariant
            i <= items.len(),
            copies.len() == i,
            forall|j: int| 0 <= j < i ==> copies@[j]@ == items@[j]@,
        decreases items.len() - i,
    {
        proof {
            vstd::std_specs::vec::axiom_vec_index_decreases(*items, i as int);
        }
        let value = items[i].duplicate();
        copies.push(value);
        i += 1;
    }
    proof {
        assert(views_of(copies@) =~= views_of(items@));
    }
    copies
}

/// A second row of entries with the same content.
pub fn duplicate_entries(entries: &Vec<Entry>) -> (copies: Vec<Entry>)
    ensures
        entry_views_of(copies@) == entry_views_of(entries@),
    decreases entries,
{
    let mut copies: Vec<Entry> = Vec::new();
    let mut i: usize = 0;
    while i < entries.len()
        invariant
            i <= entries.len(),
            copies.len() == i,
            forall|j: int| 0 <= j < i ==> copies@[j]@ == entries@[j]@,
        decreases entries.len() - i,
    {
        proof {
            vstd::std_specs::vec::axiom_vec_index_decreases(*entries, i as int);
        }
        let key = entries[i].key.clone();
        let value = entries[i].value.duplicate();
        copies.push(Entry { key, value });
        i += 1;
    }
    proof {
        assert(entry_views_of(copies@) =~= entry_views_of(entries@));
    }
    copies
}

} // verus!
