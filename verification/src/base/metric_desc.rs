//! Descriptions of metrics.
use vstd::prelude::*;

verus! {

/// The name, the help text and the labels of a metric.
pub struct MetricDesc {
    pub name: &'static str,
    pub help: &'static str,
    pub labels: Vec<&'static str>,
}

/// A description as a mathematical value.
pub struct DescModel {
    pub name: Seq<char>,
    pub help: Seq<char>,
    pub labels: Seq<Seq<char>>,
}

impl View for MetricDesc {
    type V = DescModel;

    open spec fn view(&self) -> DescModel {
        DescModel {
            name: self.name@,
            help: self.help@,
            labels: Seq::new(self.labels@.len(), |i: int| self.labels@[i]@),
        }
    }
}

/// The descriptions of a list.
pub open spec fn desc_models(descs: Seq<MetricDesc>) -> Seq<DescModel> {
    Seq::new(descs.len(), |i: int| descs[i]@)
}

impl MetricDesc {
    /// A metric without labels.
    pub fn plain(name: &'static str, help: &'static str) -> (r: MetricDesc)
        ensures
            r@ == (DescModel { name: name@, help: help@, labels: Seq::empty() }),
    {
        let r = MetricDesc { name, help, labels: Vec::new() };
        assert(r@.labels =~= Seq::<Seq<char>>::empty());
        r
    }

    /// A metric with one label.
    pub fn labelled(name: &'static str, help: &'static str, label: &'static str) -> (r: MetricDesc)
        ensures
            r@ == (DescModel { name: name@, help: help@, labels: seq![label@] }),
    {
        let mut labels: Vec<&'static str> = Vec::new();
        labels.push(label);
        let r = MetricDesc { name, help, labels };
        assert(r@.labels =~= seq![label@]);
        r
    }

    /// A metric with two labels.
    pub fn labelled2(
        name: &'static str,
        help: &'static str,
        first: &'static str,
        second: &'static str,
    ) -> (r: MetricDesc)
        ensures
            r@ == (DescModel { name: name@, help: help@, labels: seq![first@, second@] }),
    {
        let mut labels: Vec<&'static str> = Vec::new();
        labels.push(first);
        labels.push(second);
        let r = MetricDesc { name, help, labels };
        assert(r@.labels =~= seq![first@, second@]);
        r
    }
}

} // verus!
