//! A Restart Manager that keeps the record of what it was asked and what
//! it answered. The record can only grow by a scan, so a contract that
//! speaks of it speaks of the scans that were really made.

use vstd::prelude::*;

use super::restart_manager::{RestartManagerApi, RmProcessInfo};
use crate::error::RmError;

verus! {

/// A Restart Manager together with the record of the scans made through
/// it: the paths of each scan, with its answer.
pub struct RecordedRm<'a, R: RestartManagerApi + ?Sized> {
    rm: &'a R,
    asked: Ghost<Seq<(Seq<String>, Result<Vec<RmProcessInfo>, RmError>)>>,
}

impl<'a, R: RestartManagerApi + ?Sized> RecordedRm<'a, R> {
    /// The scans made so far, in order: the paths asked about, and the
    /// answer.
    pub closed spec fn asked(&self) -> Seq<(Seq<String>, Result<Vec<RmProcessInfo>, RmError>)> {
        self.asked@
    }

    /// `rm`, with no scan made yet.
    pub fn new(rm: &'a R) -> (r: RecordedRm<'a, R>)
        ensures
            r.asked() == Seq::<(Seq<String>, Result<Vec<RmProcessInfo>, RmError>)>::empty(),
    {
        RecordedRm { rm, asked: Ghost(Seq::empty()) }
    }

    /// The processes that hold any of `paths`, as the Restart Manager
    /// answers; the scan is recorded.
    pub fn scan(&mut self, paths: &[String]) -> (r: Result<Vec<RmProcessInfo>, RmError>)
        ensures
            final(self).asked() == old(self).asked().push((paths@, r)),
    {
        let r = self.rm.scan(paths);
        self.asked = Ghost(self.asked@.push((paths@, r)));
        r
    }
}

} // verus!
