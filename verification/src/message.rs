//! One delivered batch: a timestamped set of metrics together with where it
//! came from.

use vstd::prelude::*;
use crate::metric::{Metric, MetricModel};

verus! {

/// A batch of metrics delivered together by a producer, stamped with the
/// producer's batch timestamp in microseconds.
pub struct MetricCollection {
    src: String,
    subscription: String,
    timestamp: u64,
    metrics: Vec<Metric>,
}

/// The mathematical shape of a [`MetricCollection`].
#[verifier::ext_equal]
pub struct CollectionModel {
    pub src: Seq<char>,
    pub subscription: Seq<char>,
    pub timestamp: u64,
    pub metrics: Seq<MetricModel>,
}

impl View for MetricCollection {
    type V = CollectionModel;

    closed spec fn view(&self) -> CollectionModel {
        CollectionModel {
            src: self.src@,
            subscription: self.subscription@,
            timestamp: self.timestamp,
            metrics: self.metrics@.map_values(|m: Metric| m@),
        }
    }
}

impl MetricCollection {
    pub fn new(src: String, subscription: String, timestamp: u64, metrics: Vec<Metric>) -> (r:
        MetricCollection)
        ensures
            r@ == (CollectionModel {
                src: src@,
                subscription: subscription@,
                timestamp,
                metrics: metrics@.map_values(|m: Metric| m@),
            }),
    {
        MetricCollection { src, subscription, timestamp, metrics }
    }

    pub fn get_timestamp(&self) -> (r: u64)
        ensures
            r == self@.timestamp,
    {
        self.timestamp
    }

    pub fn get_metrics_ref(&self) -> (r: &Vec<Metric>)
        ensures
            r@.map_values(|m: Metric| m@) == self@.metrics,
    {
        &self.metrics
    }

    pub fn get_metrics(self) -> (r: Vec<Metric>)
        ensures
            r@.map_values(|m: Metric| m@) == self@.metrics,
    {
        self.metrics
    }
}

} // verus!
