//! A recorded metric: a name, the tags that label it, and its reading.

use vstd::prelude::*;
use crate::text::same_text;

verus! {

/// The mathematical content of a [`Tag`].
pub struct TagView {
    pub key: Seq<char>,
    pub value: Seq<char>,
}

/// A label of a metric.
#[derive(Clone, Debug, PartialEq, Eq)]
pub struct Tag {
    pub key: String,
    pub value: String,
}

impl View for Tag {
    type V = TagView;

    open spec fn view(&self) -> TagView {
        TagView { key: self.key@, value: self.value@ }
    }
}

/// The mathematical content of a [`Metric`].
pub struct MetricView {
    pub name: Seq<char>,
    pub tags: Seq<TagView>,
    pub reading: u64,
}

/// A metric. The reading is kept as the bits of the number that was
/// recorded; nothing here computes with it.
#[derive(Clone, Debug, PartialEq, Eq)]
pub struct Metric {
    pub name: String,
    pub tags: Vec<Tag>,
    pub reading: u64,
}

impl View for Metric {
    type V = MetricView;

    open spec fn view(&self) -> MetricView {
        MetricView {
            name: self.name@,
            tags: Seq::new(self.tags@.len(), |i: int| self.tags@[i]@),
            reading: self.reading,
        }
    }
}

/// The value of the first tag with `key`, looking from `from` on.
pub open spec fn tag_from(tags: Seq<TagView>, key: Seq<char>, from: int) -> Option<Seq<char>>
    decreases tags.len() - from,
{
    if from >= tags.len() {
        None
    } else if tags[from].key == key {
        Some(tags[from].value)
    } else {
        tag_from(tags, key, from + 1)
    }
}

impl MetricView {
    /// The value of the tag with `key`: that of the first such tag.
    pub open spec fn tag_value(self, key: Seq<char>) -> Option<Seq<char>> {
        tag_from(self.tags, key, 0)
    }
}

impl Metric {
    /// The metric with the given name, tags and reading.
    pub fn new(name: String, tags: Vec<Tag>, reading: u64) -> (m: Metric)
        ensures
            m.name == name,
            m.tags == tags,
            m.reading == reading,
    {
        Metric { name, tags, reading }
    }

    /// The value of the tag with `key`, if the metric has such a tag.
    pub fn tag_value(&self, key: &str) -> (r: Option<&str>)
        ensures
            match r {
                Some(value) => self@.tag_value(key@) == Some(value@),
                None => self@.tag_value(key@) is None,
            },
    {
        let mut i: usize = 0;
        while i < self.tags.len()
            invariant
                i <= self.tags.len(),
                self@.tag_value(key@) == tag_from(self@.tags, key@, i as int),
            decreases self.tags.len() - i,
        {
            if same_text(self.tags[i].key.as_str(), key) {
                return Some(self.tags[i].value.as_str());
            }
            i += 1;
        }
        None
    }
}

/// The content of a row of metrics.
pub open spec fn metric_views(metrics: Seq<Metric>) -> Seq<MetricView> {
    Seq::new(metrics.len(), |i: int| metrics[i]@)
}

/// The content of a row of borrowed metrics.
pub open spec fn borrowed_views(metrics: Seq<&Metric>) -> Seq<MetricView> {
    Seq::new(metrics.len(), |i: int| metrics[i]@)
}

/// The metrics called `name`, in the order in which they stand.
pub open spec fn named(metrics: Seq<MetricView>, name: Seq<char>) -> Seq<MetricView>
    decreases metrics.len(),
{
    if metrics.len() == 0 {
        Seq::empty()
    } else if metrics.last().name == name {
        named(metrics.drop_last(), name).push(metrics.last())
    } else {
        named(metrics.drop_last(), name)
    }
}

/// The metrics whose tag `key` has the value `value`, in the order in
/// which they stand.
pub open spec fn tagged(metrics: Seq<MetricView>, key: Seq<char>, value: Seq<char>) -> Seq<
    MetricView,
>
    decreases metrics.len(),
{
    if metrics.len() == 0 {
        Seq::empty()
    } else if metrics.last().tag_value(key) == Some(value) {
        tagged(metrics.drop_last(), key, value).push(metrics.last())
    } else {
        tagged(metrics.drop_last(), key, value)
    }
}

/// The metrics of `metrics` that are called `name`.
pub fn select_named<'a>(metrics: &'a Vec<Metric>, name: &str) -> (out: Vec<&'a Metric>)
    ensures
        borrowed_views(out@) == named(metric_views(metrics@), name@),
{
    let ghost all = metric_views(metrics@);
    let mut out: Vec<&'a Metric> = Vec::new();
    let mut i: usize = 0;
    proof {
        assert(borrowed_views(out@) =~= Seq::<MetricView>::empty());
    }
    while i < metrics.len()
        invariant
            i <= metrics.len(),
            all == metric_views(metrics@),
            borrowed_views(out@) == named(all.take(i as int), name@),
        decreases metrics.len() - i,
    {
        proof {
            assert(all.take(i + 1).drop_last() =~= all.take(i as int));
            assert(all.take(i + 1).last() == metrics@[i as int]@);
        }
        if same_text(metrics[i].name.as_str(), name) {
            proof {
                assert(borrowed_views(out@.push(&metrics@[i as int])) =~= borrowed_views(
                    out@,
                ).push(metrics@[i as int]@));
            }
            out.push(&metrics[i]);
        }
        i += 1;
    }
    proof {
        assert(all.take(metrics.len() as int) =~= all);
    }
    out
}

/// The metrics of `metrics` that are called `name`.
pub fn select_named_borrowed<'a>(metrics: &Vec<&'a Metric>, name: &str) -> (out: Vec<&'a Metric>)
    ensures
        borrowed_views(out@) == named(borrowed_views(metrics@), name@),
{
    let ghost all = borrowed_views(metrics@);
    let mut out: Vec<&'a Metric> = Vec::new();
    let mut i: usize = 0;
    proof {
        assert(borrowed_views(out@) =~= Seq::<MetricView>::empty());
    }
    while i < metrics.len()
        invariant
            i <= metrics.len(),
            all == borrowed_views(metrics@),
            borrowed_views(out@) == named(all.take(i as int), name@),
        decreases metrics.len() - i,
    {
        proof {
            assert(all.take(i + 1).drop_last() =~= all.take(i as int));
            assert(all.take(i + 1).last() == metrics@[i as int]@);
        }
        if same_text(metrics[i].name.as_str(), name) {
            proof {
                assert(borrowed_views(out@.push(metrics@[i as int])) =~= borrowed_views(out@).push(
                    metrics@[i as int]@,
                ));
            }
            out.push(metrics[i]);
        }
        i += 1;
    }
    proof {
        assert(all.take(metrics.len() as int) =~= all);
    }
    out
}

/// The metrics of `metrics` whose tag `key` has the value `value`.
pub fn select_tagged<'a>(metrics: &'a Vec<Metric>, key: &str, value: &str) -> (out: Vec<
    &'a Metric,
>)
    ensures
        borrowed_views(out@) == tagged(metric_views(metrics@), key@, value@),
{
    let ghost all = metric_views(metrics@);
    let mut out: Vec<&'a Metric> = Vec::new();
    let mut i: usize = 0;
    proof {
        assert(borrowed_views(out@) =~= Seq::<MetricView>::empty());
    }
    while i < metrics.len()
        invariant
            i <= metrics.len(),
            all == metric_views(metrics@),
            borrowed_views(out@) == tagged(all.take(i as int), key@, value@),
        decreases metrics.len() - i,
    {
        proof {
            assert(all.take(i + 1).drop_last() =~= all.take(i as int));
            assert(all.take(i + 1).last() == metrics@[i as int]@);
        }
        let matches = match metrics[i].tag_value(key) {
            Some(found) => same_text(found, value),
            None => false,
        };
        if matches {
            proof {
                assert(borrowed_views(out@.push(&metrics@[i as int])) =~= borrowed_views(
                    out@,
                ).push(metrics@[i as int]@));
            }
            out.push(&metrics[i]);
        }
        i += 1;
    }
    proof {
        assert(all.take(metrics.len() as int) =~= all);
    }
    out
}

} // verus!
