//! What a join hands back: the four outputs and the counters.

use vstd::prelude::*;
use crate::model::JoinView;
use crate::model::Outcome;
use crate::record::views;
use crate::record::Record;
use crate::stats::Stats;

verus! {

/// The records for the four destinations, each in the order in which they
/// are to be written, and the counters of the run.
#[derive(Debug, PartialEq, Eq)]
pub struct JoinOutput {
    pub forward_paired: Vec<Record>,
    pub reverse_paired: Vec<Record>,
    pub forward_single: Vec<Record>,
    pub reverse_single: Vec<Record>,
    pub stats: Stats,
}

impl View for JoinOutput {
    type V = JoinView;

    open spec fn view(&self) -> JoinView {
        JoinView {
            forward_paired: views(self.forward_paired@),
            reverse_paired: views(self.reverse_paired@),
            forward_single: views(self.forward_single@),
            reverse_single: views(self.reverse_single@),
            stats: self.stats,
        }
    }
}

/// What became of one forward read.
#[derive(Debug, PartialEq, Eq)]
pub enum Matched {
    /// A mate was found: the forward read as it came, and the reverse record
    /// rebuilt from the index.
    Paired { forward: Record, reverse: Record },
    /// No mate was found.
    Single { forward: Record },
}

impl View for Matched {
    type V = Outcome;

    open spec fn view(&self) -> Outcome {
        match *self {
            Matched::Paired { forward, reverse } => Outcome::Paired {
                forward: forward@,
                reverse: reverse@,
            },
            Matched::Single { forward } => Outcome::Single { forward: forward@ },
        }
    }
}

} // verus!
