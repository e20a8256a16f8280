//! Handles on metrics the host has defined, each known by the id it assigned.
use crate::traits::Metric;
use vstd::prelude::*;

verus! {

#[derive(Clone, Copy, Debug, PartialEq, Eq)]
pub struct Counter {
    id: u32,
}

#[derive(Clone, Copy, Debug, PartialEq, Eq)]
pub struct Gauge {
    id: u32,
}

#[derive(Clone, Copy, Debug, PartialEq, Eq)]
pub struct Histogram {
    id: u32,
}

impl Counter {
    pub closed spec fn spec_id(self) -> u32 {
        self.id
    }

    /// The counter the host defined under `id`.
    pub fn new(id: u32) -> (r: Counter)
        ensures
            r.spec_id() == id,
    {
        Counter { id }
    }
}

impl Gauge {
    pub closed spec fn spec_id(self) -> u32 {
        self.id
    }

    /// The gauge the host defined under `id`.
    pub fn new(id: u32) -> (r: Gauge)
        ensures
            r.spec_id() == id,
    {
        Gauge { id }
    }
}

impl Histogram {
    pub closed spec fn spec_id(self) -> u32 {
        self.id
    }

    /// The histogram the host defined under `id`.
    pub fn new(id: u32) -> (r: Histogram)
        ensures
            r.spec_id() == id,
    {
        Histogram { id }
    }
}

impl Metric for Counter {
    fn id(&self) -> u32 {
        self.id
    }
}

impl Metric for Gauge {
    fn id(&self) -> u32 {
        self.id
    }
}

impl Metric for Histogram {
    fn id(&self) -> u32 {
        self.id
    }
}

} // verus!
