//! Paths into structured data, and the target that a program reads.

use vstd::prelude::*;
use crate::mapping::{
    canonical, entry_index, entry_value, find, lemma_key_from, lemma_put_ascending,
    lemma_put_find, lemma_put_members, put, put_entry,
};
use crate::value::{
    entry_views_of, lemma_view_of_rows, views_of, Entry, EntryView, Value, ValueView,
};

verus! {

/// The mathematical content of a [`Segment`].
pub enum SegmentView {
    Field(Seq<char>),
    Index(nat),
}

/// One step of a path: into a mapping by key, or into an array by position.
#[derive(Debug, PartialEq, Eq)]
pub enum Segment {
    Field(String),
    Index(usize),
}

impl View for Segment {
    type V = SegmentView;

    open spec fn view(&self) -> SegmentView {
        match self {
            Segment::Field(name) => SegmentView::Field(name@),
            Segment::Index(at) => SegmentView::Index(*at as nat),
        }
    }
}

/// A path: the steps that lead from the root of a target to a value in it.
#[derive(Debug, PartialEq, Eq)]
pub struct Path {
    pub segments: Vec<Segment>,
}

impl View for Path {
    type V = Seq<SegmentView>;

    open spec fn view(&self) -> Seq<SegmentView> {
        Seq::new(self.segments@.len(), |i: int| self.segments@[i]@)
    }
}

impl Path {
    /// The path with the given steps.
    pub fn new(segments: Vec<Segment>) -> (p: Path)
        ensures
            p.segments == segments,
    {
        Path { segments }
    }

    /// The path without steps, which leads to the root.
    pub fn root() -> (p: Path)
        ensures
            p@ == Seq::<SegmentView>::empty(),
    {
        let p = Path { segments: Vec::new() };
        proof {
            assert(p@ =~= Seq::<SegmentView>::empty());
        }
        p
    }

    /// The path of one step, into the field called `name`.
    pub fn field(name: &str) -> (p: Path)
        ensures
            p@ == seq![SegmentView::Field(name@)],
    {
        let mut segments: Vec<Segment> = Vec::new();
        segments.push(Segment::Field(name.to_owned()));
        let p = Path { segments };
        proof {
            assert(p@ =~= seq![SegmentView::Field(name@)]);
        }
        p
    }

    /// The path that goes on from this one into the field called `name`.
    pub fn then_field(self, name: &str) -> (p: Path)
        ensures
            p@ == self@.push(SegmentView::Field(name@)),
    {
        let mut segments = self.segments;
        segments.push(Segment::Field(name.to_owned()));
        let p = Path { segments };
        proof {
            assert(p@ =~= self@.push(SegmentView::Field(name@)));
        }
        p
    }

    /// The path that goes on from this one to position `at` of an array.
    pub fn then_index(self, at: usize) -> (p: Path)
        ensures
            p@ == self@.push(SegmentView::Index(at as nat)),
    {
        let mut segments = self.segments;
        segments.push(Segment::Index(at));
        let p = Path { segments };
        proof {
            assert(p@ =~= self@.push(SegmentView::Index(at as nat)));
        }
        p
    }
}

/// The value that one step leads to, if the step can be taken.
pub open spec fn step(from: ValueView, segment: SegmentView) -> Option<ValueView> {
    match segment {
        SegmentView::Field(key) => match from {
            ValueView::Mapping(entries) => find(entries, key),
            _ => None,
        },
        SegmentView::Index(at) => match from {
            ValueView::Array(items) => if at < items.len() {
                Some(items[at as int])
            } else {
                None
            },
            _ => None,
        },
    }
}

/// The value that `path` leads to from `root`, if every step can be taken.
pub open spec fn lookup(root: ValueView, path: Seq<SegmentView>) -> Option<ValueView>
    decreases path.len(),
{
    if path.len() == 0 {
        Some(root)
    } else {
        match step(root, path[0]) {
            Some(next) => lookup(next, path.skip(1)),
            None => None,
        }
    }
}

/// The value that the rest of a path is set in, once `segment` is taken
/// from `from`. A field that a mapping lacks stands for null, and null
/// stands for a mapping without entries. There is none where a field is
/// asked of something else, or a position that an array does not have.
pub open spec fn child_at(from: ValueView, segment: SegmentView) -> Option<ValueView> {
    match segment {
        SegmentView::Field(key) => match from {
            ValueView::Mapping(entries) => match find(entries, key) {
                Some(child) => Some(child),
                None => Some(ValueView::Null),
            },
            ValueView::Null => Some(ValueView::Null),
            _ => None,
        },
        SegmentView::Index(at) => match from {
            ValueView::Array(items) => if at < items.len() {
                Some(items[at as int])
            } else {
                None
            },
            _ => None,
        },
    }
}

/// `from` with `child` where `segment` leads.
pub open spec fn with_child(from: ValueView, segment: SegmentView, child: ValueView) -> ValueView {
    match segment {
        SegmentView::Field(key) => match from {
            ValueView::Mapping(entries) => ValueView::Mapping(put(entries, key, child)),
            _ => ValueView::Mapping(seq![EntryView { key, value: child }]),
        },
        SegmentView::Index(at) => match from {
            ValueView::Array(items) => ValueView::Array(items.update(at as int, child)),
            _ => from,
        },
    }
}

/// What a value says when it refuses to set something at a path.
pub open spec fn unsettable() -> Seq<char> {
    "the path cannot be followed"@
}

/// Whether a value can be set at `path` of `root`.
pub open spec fn settable(root: ValueView, path: Seq<SegmentView>) -> bool
    decreases path.len(),
{
    if path.len() == 0 {
        true
    } else {
        match child_at(root, path[0]) {
            Some(child) => settable(child, path.skip(1)),
            None => false,
        }
    }
}

/// `root` with `value` at `path`. Mappings come into being along the way
/// where a field or null was in their place.
pub open spec fn assigned(root: ValueView, path: Seq<SegmentView>, value: ValueView) -> ValueView
    decreases path.len(),
{
    if path.len() == 0 {
        value
    } else {
        match child_at(root, path[0]) {
            Some(child) => with_child(root, path[0], assigned(child, path.skip(1), value)),
            None => root,
        }
    }
}

/// What was set at a path is what the path leads to afterwards.
pub proof fn lemma_assigned_is_found(root: ValueView, path: Seq<SegmentView>, value: ValueView)
    requires
        settable(root, path),
    ensures
        lookup(assigned(root, path, value), path) == Some(value),
    decreases path.len(),
{
    if path.len() > 0 {
        let child = child_at(root, path[0])->0;
        let below = assigned(child, path.skip(1), value);
        lemma_assigned_is_found(child, path.skip(1), value);
        match path[0] {
            SegmentView::Field(key) => {
                match root {
                    ValueView::Mapping(entries) => {
                        lemma_put_find(entries, key, below, key);
                    },
                    _ => {
                        let row = seq![EntryView { key, value: below }];
                        crate::mapping::lemma_key_is(row, key, 0, 0);
                    },
                }
            },
            SegmentView::Index(at) => {},
        }
        assert(step(assigned(root, path, value), path[0]) == Some(below));
    }
}

/// Setting a value in its one form at a path of a value in its one form
/// gives a value in its one form.
pub proof fn lemma_assigned_canonical(root: ValueView, path: Seq<SegmentView>, value: ValueView)
    requires
        canonical(root),
        canonical(value),
    ensures
        canonical(assigned(root, path, value)),
    decreases path.len(),
{
    if path.len() > 0 {
        match child_at(root, path[0]) {
            Some(child) => {
                match path[0] {
                    SegmentView::Field(key) => {
                        match root {
                            ValueView::Mapping(entries) => {
                                lemma_key_from(entries, key, 0);
                            },
                            _ => {},
                        }
                    },
                    SegmentView::Index(at) => {},
                }
                assert(canonical(child));
                lemma_assigned_canonical(child, path.skip(1), value);
                let below = assigned(child, path.skip(1), value);
                match path[0] {
                    SegmentView::Field(key) => {
                        match root {
                            ValueView::Mapping(entries) => {
                                let after = put(entries, key, below);
                                lemma_put_ascending(entries, key, below);
                                assert forall|i: int| 0 <= i < after.len() implies canonical(
                                    (#[trigger] after[i]).value,
                                ) by {
                                    lemma_put_members(entries, key, below, i);
                                }
                            },
                            _ => {},
                        }
                    },
                    SegmentView::Index(at) => {},
                }
            },
            None => {},
        }
    }
}

/// What a target says of a path: the value there, that there is none, or a
/// message that says why the path was refused.
pub type Answer = Result<Option<ValueView>, Seq<char>>;

/// What a target says of each path.
pub type Answers = spec_fn(Seq<SegmentView>) -> Answer;

/// The mathematical content of what `get` returned.
pub open spec fn answer_view(r: Result<Option<Value>, String>) -> Answer {
    match r {
        Ok(Some(v)) => Ok(Some(v@)),
        Ok(None) => Ok(None),
        Err(m) => Err(m@),
    }
}

/// The structured data that a program runs against. Programs reach into it
/// by paths and know nothing else of how it is stored.
pub trait Object {
    /// What the target says of `path`.
    spec fn answer(&self, path: Seq<SegmentView>) -> Answer;

    /// The value at `path`, `None` where there is none, or the reason why
    /// the target refuses the path.
    fn get(&self, path: &Path) -> (r: Result<Option<Value>, String>)
        ensures
            answer_view(r) == self.answer(path@),
    ;

    /// Sets the value at `path`, or gives the reason why the target
    /// refuses to.
    fn insert(&mut self, path: &Path, value: Value) -> (r: Result<(), String>);
}

/// What `object` says of each path.
pub open spec fn answers_of<O: Object + ?Sized>(object: &O) -> Answers {
    |path: Seq<SegmentView>| object.answer(path)
}

/// Takes one step from `from`.
fn take_step<'a>(from: &'a Value, segment: &Segment) -> (r: Option<&'a Value>)
    ensures
        match r {
            Some(v) => step(from@, segment@) == Some(v@),
            None => step(from@, segment@) is None,
        },
{
    proof {
        lemma_view_of_rows(*from);
    }
    match segment {
        Segment::Field(key) => match from {
            Value::Mapping(entries) => entry_value(entries, key.as_str()),
            _ => None,
        },
        Segment::Index(at) => match from {
            Value::Array(items) => if *at < items.len() {
                Some(&items[*at])
            } else {
                None
            },
            _ => None,
        },
    }
}

/// The value that the rest of a path is set in, once `segment` is taken
/// from `from`; `null` is lent for what is absent.
fn child_of<'a>(from: &'a Value, segment: &Segment, null: &'a Value) -> (r: Option<&'a Value>)
    requires
        null@ == ValueView::Null,
    ensures
        match r {
            Some(child) => child_at(from@, segment@) == Some(child@),
            None => child_at(from@, segment@) is None,
        },
{
    proof {
        lemma_view_of_rows(*from);
    }
    match segment {
        Segment::Field(key) => match from {
            Value::Mapping(entries) => match entry_value(entries, key.as_str()) {
                Some(child) => Some(child),
                None => Some(null),
            },
            Value::Null => Some(null),
            _ => None,
        },
        Segment::Index(at) => match from {
            Value::Array(items) => if *at < items.len() {
                Some(&items[*at])
            } else {
                None
            },
            _ => None,
        },
    }
}

/// Whether a value can be set at `path` of `root`.
pub fn can_set(root: &Value, path: &Path) -> (b: bool)
    ensures
        b == settable(root@, path@),
{
    let null = Value::Null;
    let mut at: &Value = root;
    let mut i: usize = 0;
    proof {
        assert(path@.skip(0) =~= path@);
    }
    while i < path.segments.len()
        invariant
            i <= path.segments.len(),
            null@ == ValueView::Null,
            settable(root@, path@) == settable(at@, path@.skip(i as int)),
        decreases path.segments.len() - i,
    {
        proof {
            assert(path@.skip(i as int)[0] == path.segments@[i as int]@);
            assert(path@.skip(i as int).skip(1) =~= path@.skip(i + 1));
        }
        match child_of(at, &path.segments[i], &null) {
            Some(child) => {
                at = child;
            },
            None => {
                return false;
            },
        }
        i += 1;
    }
    true
}

/// `root` with `value` at what is left of `path` from step `from` on.
fn assign(root: Value, path: &Path, from: usize, value: Value) -> (out: Value)
    requires
        from <= path.segments.len(),
        settable(root@, path@.skip(from as int)),
    ensures
        out@ == assigned(root@, path@.skip(from as int), value@),
    decreases path.segments.len() - from,
{
    if from == path.segments.len() {
        return value;
    }
    let ghost rest = path@.skip(from as int);
    proof {
        assert(rest[0] == path.segments@[from as int]@);
        assert(rest.skip(1) =~= path@.skip(from + 1));
        lemma_view_of_rows(root);
    }
    match &path.segments[from] {
        Segment::Field(key) => match root {
            Value::Mapping(entries) => {
                let mut entries = entries;
                let ghost rows = entry_views_of(entries@);
                match entry_index(&entries, key.as_str()) {
                    Some(at) => {
                        proof {
                            lemma_key_from(rows, key@, 0);
                        }
                        let held = entries.remove(at);
                        assert(held@ == rows[at as int]);
                        let below = assign(held.value, path, from + 1, value);
                        let entry = Entry { key: held.key, value: below };
                        entries.insert(at, entry);
                        proof {
                            assert(entry_views_of(entries@) =~= rows.update(at as int, entry@));
                            assert(entry_views_of(entries@) == put(rows, key@, below@));
                        }
                    },
                    None => {
                        let below = assign(Value::Null, path, from + 1, value);
                        put_entry(&mut entries, key.as_str(), below);
                        assert(entry_views_of(entries@) == put(rows, key@, below@));
                    },
                }
                let out = Value::Mapping(entries);
                proof {
                    lemma_view_of_rows(out);
                    assert(root@ == ValueView::Mapping(rows));
                    assert(child_at(root@, rest[0]) is Some);
                }
                out
            },
            _ => {
                let below = assign(Value::Null, path, from + 1, value);
                let mut entries: Vec<Entry> = Vec::new();
                entries.push(Entry { key: key.clone(), value: below });
                let out = Value::Mapping(entries);
                proof {
                    lemma_view_of_rows(out);
                    assert(entry_views_of(entries@) =~= seq![
                        EntryView { key: key@, value: below@ },
                    ]);
                }
                out
            },
        },
        Segment::Index(at) => match root {
            Value::Array(items) => {
                let mut items = items;
                let ghost row = views_of(items@);
                let held = items.remove(*at);
                let below = assign(held, path, from + 1, value);
                items.insert(*at, below);
                let out = Value::Array(items);
                proof {
                    lemma_view_of_rows(out);
                    assert(views_of(items@) =~= row.update(*at as int, below@));
                }
                out
            },
            other => other,
        },
    }
}

impl Object for Value {
    /// A value answers with what the path leads to, and refuses no path.
    open spec fn answer(&self, path: Seq<SegmentView>) -> Answer {
        Ok(lookup(self@, path))
    }

    fn get(&self, path: &Path) -> (r: Result<Option<Value>, String>) {
        let mut at: &Value = self;
        let mut i: usize = 0;
        proof {
            assert(path@.skip(0) =~= path@);
        }
        while i < path.segments.len()
            invariant
                i <= path.segments.len(),
                lookup(self@, path@) == lookup(at@, path@.skip(i as int)),
            decreases path.segments.len() - i,
        {
            proof {
                assert(path@.skip(i as int)[0] == path.segments@[i as int]@);
                assert(path@.skip(i as int).skip(1) =~= path@.skip(i + 1));
            }
            match take_step(at, &path.segments[i]) {
                Some(next) => {
                    at = next;
                },
                None => {
                    return Ok(None);
                },
            }
            i += 1;
        }
        Ok(Some(at.duplicate()))
    }

    /// A value takes the new value in where the path can be followed, and
    /// stays as it is where it cannot.
    fn insert(&mut self, path: &Path, value: Value) -> (r: Result<(), String>)
        ensures
            settable(old(self)@, path@) ==> r is Ok && final(self)@ == assigned(
                old(self)@,
                path@,
                value@,
            ),
            !settable(old(self)@, path@) ==> (r matches Err(reason) && reason@ == unsettable()
                && final(self)@ == old(self)@),
    {
        if !can_set(self, path) {
            return Err("the path cannot be followed".to_owned());
        }
        let mut root = Value::Null;
        std::mem::swap(self, &mut root);
        proof {
            assert(path@.skip(0) =~= path@);
        }
        *self = assign(root, path, 0, value);
        Ok(())
    }
}

} // verus!
