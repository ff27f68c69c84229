//! The resume cursor: the most recently durably-replicated chain point.
//! Reading an empty cursor falls back to the protocol-era genesis point, so
//! streaming always has a position to resume from.

use vstd::prelude::*;
use crate::chain::{ChainPoint, ChainPointView};
use crate::constants::{initial_point, spec_initial_point};

verus! {

/// The most recently durably-replicated chain point, or nothing when no
/// point has been replicated yet.
pub struct Cursor {
    point: Option<ChainPoint>,
}

/// The point a cursor resumes from: its stored point, or the protocol-era
/// genesis point when none is stored.
pub open spec fn spec_resume_point(cursor: Option<ChainPointView>) -> ChainPointView {
    match cursor {
        Some(p) => p,
        None => spec_initial_point(),
    }
}

impl View for Cursor {
    type V = Option<ChainPointView>;

    closed spec fn view(&self) -> Option<ChainPointView> {
        match self.point {
            Some(ref p) => Some(p@),
            None => None,
        }
    }
}

impl Cursor {
    /// A cursor with no replicated point yet.
    pub fn new() -> (c: Cursor)
        ensures
            c@ is None,
    {
        Cursor { point: None }
    }

    /// The point to resume streaming from: the stored point, or the
    /// protocol-era genesis point when nothing has been replicated.
    pub fn get(&self) -> (p: ChainPoint)
        ensures
            p@ == spec_resume_point(self@),
    {
        match &self.point {
            Some(p) => p.duplicate(),
            None => initial_point(),
        }
    }

    /// Records `point` as the most recently replicated position. Called only
    /// after the corresponding replication effect succeeded.
    pub fn set(&mut self, point: ChainPoint)
        ensures
            final(self)@ == Some(point@),
    {
        self.point = Some(point);
    }
}

impl Default for Cursor {
    /// A cursor with no replicated point yet.
    fn default() -> (c: Cursor)
        ensures
            c@ is None,
    {
        Cursor::new()
    }
}

} // verus!
