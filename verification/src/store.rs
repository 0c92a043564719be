//! The report store: append-only persistence of every raw report received.
//!
//! Rows are never updated or deleted; the identifier assigned at insert time
//! is the position of the row and is the only stable handle for later
//! lookup.

use vstd::prelude::*;
use crate::model::Report;

verus! {

/// Append-only storage of raw reports. Owns no derived state.
pub struct ReportStore {
    reports: Vec<Report>,
}

impl ReportStore {
    /// The stored reports in insertion order; the identifier of a report is
    /// its index here.
    pub closed spec fn rows(&self) -> Seq<Report> {
        self.reports@
    }

    /// An empty store.
    pub fn new() -> (s: ReportStore)
        ensures
            s.rows() == Seq::<Report>::empty(),
    {
        ReportStore { reports: Vec::new() }
    }

    /// Number of stored reports.
    pub fn len(&self) -> (n: usize)
        ensures
            n == self.rows().len(),
    {
        self.reports.len()
    }

    /// Appends one report and returns its assigned identifier. Nothing else
    /// changes: earlier rows are immutable.
    pub fn insert(&mut self, r: Report) -> (id: u64)
        requires
            old(self).rows().len() < u64::MAX,
        ensures
            final(self).rows() == old(self).rows().push(r),
            id == old(self).rows().len(),
    {
        let id = self.reports.len() as u64;
        self.reports.push(r);
        id
    }

    /// All stored reports, for an aggregation pass to read.
    pub fn all(&self) -> (v: &Vec<Report>)
        ensures
            v@ == self.rows(),
    {
        &self.reports
    }

    /// The report stored under `id`, or `None` for an identifier never
    /// assigned.
    pub fn get(&self, id: u64) -> (r: Option<&Report>)
        ensures
            match r {
                Some(rep) => id < self.rows().len() && *rep == self.rows()[id as int],
                None => id >= self.rows().len(),
            },
    {
        if id < self.reports.len() as u64 {
            Some(&self.reports[id as usize])
        } else {
            None
        }
    }
}

} // verus!
