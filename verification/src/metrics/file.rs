//! The metrics of a file source, as a whole and file by file.

use vstd::prelude::*;
use crate::metrics::metric::{
    borrowed_views, metric_views, named, select_named, select_named_borrowed, select_tagged,
    tagged, Metric, MetricView,
};
use crate::text::{
    lemma_text_order, lemma_text_order_transitive, same_text, str_precedes, text_before,
};

verus! {

/// The tag that names the file a metric was recorded for.
pub open spec fn file_key() -> Seq<char> {
    "file"@
}

/// The name of the metric that counts the events processed.
pub open spec fn events_name() -> Seq<char> {
    "processed_events_total"@
}

/// The name of the metric that counts the bytes processed.
pub open spec fn bytes_name() -> Seq<char> {
    "processed_bytes_total"@
}

/// The mathematical content of a [`FileSourceMetricFile`].
pub struct FileView {
    pub name: Seq<char>,
    pub metrics: Seq<MetricView>,
}

/// The metrics recorded for one file of a file source.
pub struct FileSourceMetricFile<'a> {
    name: String,
    metrics: Vec<&'a Metric>,
}

impl<'a> View for FileSourceMetricFile<'a> {
    type V = FileView;

    closed spec fn view(&self) -> FileView {
        FileView { name: self.name@, metrics: borrowed_views(self.metrics@) }
    }
}

impl<'a> FileSourceMetricFile<'a> {
    /// The file called by the first component, with the metrics of the
    /// second.
    pub fn from_tuple(pair: (String, Vec<&'a Metric>)) -> (file: Self)
        ensures
            file@ == (FileView { name: pair.0@, metrics: borrowed_views(pair.1@) }),
    {
        let (name, metrics) = pair;
        FileSourceMetricFile { name, metrics }
    }

    /// The name of the file.
    pub fn name(&self) -> (name: &str)
        ensures
            name@ == self@.name,
    {
        self.name.as_str()
    }

    /// The metrics recorded for the file.
    pub fn metrics(&self) -> (metrics: &Vec<&'a Metric>)
        ensures
            borrowed_views(metrics@) == self@.metrics,
    {
        &self.metrics
    }

    /// The metrics that count the events processed for the file.
    pub fn processed_events_total(&self) -> (found: Vec<&'a Metric>)
        ensures
            borrowed_views(found@) == named(self@.metrics, events_name()),
    {
        select_named_borrowed(&self.metrics, "processed_events_total")
    }

    /// The metrics that count the bytes processed for the file.
    pub fn processed_bytes_total(&self) -> (found: Vec<&'a Metric>)
        ensures
            borrowed_views(found@) == named(self@.metrics, bytes_name()),
    {
        select_named_borrowed(&self.metrics, "processed_bytes_total")
    }
}

/// Whether the texts stand in strictly ascending order.
pub open spec fn ascending(names: Seq<Seq<char>>) -> bool {
    forall|i: int, j: int| 0 <= i < j < names.len() ==> text_before(names[i], names[j])
}

/// The content of a row of texts.
pub open spec fn texts(names: Seq<String>) -> Seq<Seq<char>> {
    Seq::new(names.len(), |i: int| names[i]@)
}

/// Puts `name` into the ascending row `names`, unless it is there.
fn insert_name(names: &mut Vec<String>, name: &str)
    requires
        ascending(texts(old(names)@)),
    ensures
        ascending(texts(final(names)@)),
        forall|t: Seq<char>|
            texts(final(names)@).contains(t) <==> (t == name@ || texts(old(names)@).contains(t)),
{
    let ghost earlier_names = texts(names@);
    let mut at: usize = 0;
    while at < names.len() && str_precedes(names[at].as_str(), name)
        invariant
            at <= names.len(),
            *names == *old(names),
            earlier_names == texts(names@),
            forall|k: int| 0 <= k < at ==> text_before(earlier_names[k], name@),
        decreases names.len() - at,
    {
        at += 1;
    }
    if at < names.len() && same_text(names[at].as_str(), name) {
        proof {
            assert(earlier_names[at as int] == name@);
            assert(earlier_names.contains(name@));
        }
        return ;
    }
    proof {
        if at < names.len() {
            assert(earlier_names[at as int] == names@[at as int]@);
            lemma_text_order(earlier_names[at as int], name@);
            assert(text_before(name@, earlier_names[at as int]));
        }
        assert forall|k: int| at <= k < earlier_names.len() implies text_before(
            name@,
            earlier_names[k],
        ) by {
            if k > at {
                assert(text_before(earlier_names[at as int], earlier_names[k]));
                lemma_text_order_transitive(name@, earlier_names[at as int], earlier_names[k]);
            }
        }
        assert forall|k: int| 0 <= k < earlier_names.len() implies earlier_names[k] != name@ by {
            lemma_text_order(name@, name@);
        }
    }
    names.insert(at, name.to_owned());
    proof {
        let after = texts(names@);
        assert(after =~= earlier_names.insert(at as int, name@));
        assert forall|i: int, j: int| 0 <= i < j < after.len() implies text_before(
            after[i],
            after[j],
        ) by {
            if i < at && j > at {
                assert(after[i] == earlier_names[i]);
                assert(after[j] == earlier_names[j - 1]);
            } else if i == at {
                assert(after[j] == earlier_names[j - 1]);
            } else if j == at {
                assert(after[i] == earlier_names[i]);
            } else if j < at {
                assert(after[i] == earlier_names[i] && after[j] == earlier_names[j]);
            } else {
                assert(after[i] == earlier_names[i - 1] && after[j] == earlier_names[j - 1]);
            }
        }
        assert forall|t: Seq<char>| after.contains(t) <==> (t == name@ || earlier_names.contains(
            t,
        )) by {
            if after.contains(t) {
                let k = choose|k: int| 0 <= k < after.len() && after[k] == t;
                if k < at {
                    assert(earlier_names[k] == t);
                } else if k > at {
                    assert(earlier_names[k - 1] == t);
                }
            }
            if t == name@ {
                assert(after[at as int] == t);
            }
            if earlier_names.contains(t) {
                let k = choose|k: int| 0 <= k < earlier_names.len() && earlier_names[k] == t;
                if k < at {
                    assert(after[k] == t);
                } else {
                    assert(after[k + 1] == t);
                }
            }
        }
    }
}

/// The names of the files that `metrics` are tagged with, each once, in
/// ascending order.
pub fn file_names(metrics: &Vec<Metric>) -> (names: Vec<String>)
    ensures
        ascending(texts(names@)),
        forall|t: Seq<char>|
            texts(names@).contains(t) <==> exists|k: int|
                0 <= k < metrics.len() && (#[trigger] metrics@[k])@.tag_value(file_key()) == Some(
                    t,
                ),
{
    let mut names: Vec<String> = Vec::new();
    let mut i: usize = 0;
    while i < metrics.len()
        invariant
            i <= metrics.len(),
            ascending(texts(names@)),
            forall|t: Seq<char>|
                texts(names@).contains(t) <==> exists|k: int|
                    0 <= k < i && (#[trigger] metrics@[k])@.tag_value(file_key()) == Some(t),
        decreases metrics.len() - i,
    {
        let ghost earlier = texts(names@);
        match metrics[i].tag_value("file") {
            Some(file) => {
                insert_name(&mut names, file);
                proof {
                    assert forall|t: Seq<char>| texts(names@).contains(t) <==> exists|k: int|
                        0 <= k < i + 1 && (#[trigger] metrics@[k])@.tag_value(file_key()) == Some(
                            t,
                        ) by {
                        if texts(names@).contains(t) {
                            if t == file@ {
                                assert(metrics@[i as int]@.tag_value(file_key()) == Some(t));
                            } else {
                                assert(earlier.contains(t));
                                let k = choose|k: int|
                                    0 <= k < i && (#[trigger] metrics@[k])@.tag_value(file_key())
                                        == Some(t);
                                assert(0 <= k < i + 1);
                            }
                        }
                        if exists|k: int|
                            0 <= k < i + 1 && (#[trigger] metrics@[k])@.tag_value(file_key())
                                == Some(t) {
                            let k = choose|k: int|
                                0 <= k < i + 1 && (#[trigger] metrics@[k])@.tag_value(file_key())
                                    == Some(t);
                            if k < i {
                                assert(earlier.contains(t));
                            }
                        }
                    }
                }
            },
            None => {
                proof {
                    assert forall|t: Seq<char>| texts(names@).contains(t) <==> exists|k: int|
                        0 <= k < i + 1 && (#[trigger] metrics@[k])@.tag_value(file_key()) == Some(
                            t,
                        ) by {
                        if texts(names@).contains(t) {
                            let k = choose|k: int|
                                0 <= k < i && (#[trigger] metrics@[k])@.tag_value(file_key())
                                    == Some(t);
                            assert(0 <= k < i + 1);
                        }
                        if exists|k: int|
                            0 <= k < i + 1 && (#[trigger] metrics@[k])@.tag_value(file_key())
                                == Some(t) {
                            let k = choose|k: int|
                                0 <= k < i + 1 && (#[trigger] metrics@[k])@.tag_value(file_key())
                                    == Some(t);
                            assert(k < i);
                        }
                    }
                }
            },
        }
        i += 1;
    }
    names
}

/// The metrics of a file source.
#[derive(Clone, Debug)]
pub struct FileSourceMetrics(pub Vec<Metric>);

impl View for FileSourceMetrics {
    type V = Seq<MetricView>;

    open spec fn view(&self) -> Seq<MetricView> {
        metric_views(self.0@)
    }
}

/// Whether some metric is tagged with the file called `name`.
pub open spec fn names_file(metrics: Seq<MetricView>, name: Seq<char>) -> bool {
    exists|k: int|
        0 <= k < metrics.len() && (#[trigger] metrics[k]).tag_value(file_key()) == Some(name)
}

/// Whether one of `files` is called `name`.
pub open spec fn lists_file(files: Seq<FileView>, name: Seq<char>) -> bool {
    exists|i: int| 0 <= i < files.len() && (#[trigger] files[i]).name == name
}

/// What `files` gives for `metrics`: one entry for each file that a metric
/// is tagged with, in ascending order of the names and none twice, each
/// with the metrics tagged with it, in the order in which they stand.
pub open spec fn files_of(metrics: Seq<MetricView>, files: Seq<FileView>) -> bool {
    &&& forall|i: int, j: int|
        0 <= i < j < files.len() ==> text_before((#[trigger] files[i]).name, (#[trigger] files[j]).name)
    &&& forall|i: int|
        0 <= i < files.len() ==> (#[trigger] files[i]).metrics == tagged(
            metrics,
            file_key(),
            files[i].name,
        )
    &&& forall|name: Seq<char>| lists_file(files, name) <==> names_file(metrics, name)
}

/// The content of a row of files.
pub open spec fn file_views(files: Seq<FileSourceMetricFile<'_>>) -> Seq<FileView> {
    Seq::new(files.len(), |i: int| files[i]@)
}

impl FileSourceMetrics {
    /// The metrics of a file source, as they were recorded.
    pub fn new(metrics: Vec<Metric>) -> (all: Self)
        ensures
            all.0 == metrics,
    {
        FileSourceMetrics(metrics)
    }

    /// The metrics file by file. Metrics without a `file` tag belong to no
    /// file.
    pub fn files(&self) -> (files: Vec<FileSourceMetricFile<'_>>)
        ensures
            files_of(self@, file_views(files@)),
    {
        let names = file_names(&self.0);
        let ghost wanted = texts(names@);
        let mut files: Vec<FileSourceMetricFile<'_>> = Vec::new();
        let mut i: usize = 0;
        while i < names.len()
            invariant
                i <= names.len(),
                wanted == texts(names@),
                files.len() == i,
                forall|j: int|
                    0 <= j < i ==> (#[trigger] files@[j])@ == (FileView {
                        name: wanted[j],
                        metrics: tagged(self@, file_key(), wanted[j]),
                    }),
            decreases names.len() - i,
        {
            let group = select_tagged(&self.0, "file", names[i].as_str());
            let file = FileSourceMetricFile::from_tuple((names[i].clone(), group));
            proof {
                assert(wanted[i as int] == names@[i as int]@);
            }
            files.push(file);
            i += 1;
        }
        proof {
            let views = file_views(files@);
            let metrics = self@;
            assert forall|i: int| 0 <= i < views.len() implies (#[trigger] views[i]) == (FileView {
                name: wanted[i],
                metrics: tagged(metrics, file_key(), wanted[i]),
            }) by {
                assert(views[i] == files@[i]@);
            }
            assert forall|name: Seq<char>| lists_file(views, name) <==> names_file(
                metrics,
                name,
            ) by {
                if lists_file(views, name) {
                    let i = choose|i: int| 0 <= i < views.len() && (#[trigger] views[i]).name == name;
                    assert(wanted[i] == name);
                    assert(wanted.contains(name));
                    let k = choose|k: int|
                        0 <= k < self.0.len() && (#[trigger] self.0@[k])@.tag_value(file_key())
                            == Some(name);
                    assert(metrics[k] == self.0@[k]@);
                }
                if names_file(metrics, name) {
                    let k = choose|k: int|
                        0 <= k < metrics.len() && (#[trigger] metrics[k]).tag_value(file_key())
                            == Some(name);
                    assert(metrics[k] == self.0@[k]@);
                    assert(wanted.contains(name));
                    let i = choose|i: int| 0 <= i < wanted.len() && wanted[i] == name;
                    assert(views[i].name == name);
                }
            }
        }
        files
    }

    /// The metrics that count the events processed for the source.
    pub fn processed_events_total(&self) -> (found: Vec<&Metric>)
        ensures
            borrowed_views(found@) == named(self@, events_name()),
    {
        select_named(&self.0, "processed_events_total")
    }

    /// The metrics that count the bytes processed for the source.
    pub fn processed_bytes_total(&self) -> (found: Vec<&Metric>)
        ensures
            borrowed_views(found@) == named(self@, bytes_name()),
    {
        select_named(&self.0, "processed_bytes_total")
    }
}

} // verus!
