//! Pairing the reads of two files, or of one interleaved file.

use vstd::prelude::*;
use vstd::string::StringExecFns;
use crate::disk_join::run_ondisk;
use crate::disk_join::IndexError;
use crate::interleaved::is_interleaved_join;
use crate::interleaved::run_interleaved;
use crate::memory_join::run_inmemory;
use crate::model::is_disk_join;
use crate::model::is_memory_join;
use crate::output::JoinOutput;
use crate::record::views;
use crate::record::Record;
use crate::stats::format_stats;
use crate::stats::report_text;

verus! {

/// The three ways of joining.
#[derive(Clone, Copy, Debug, PartialEq, Eq, Structural)]
pub enum Strategy {
    /// One stream whose reads alternate between forward and reverse.
    Interleaved,
    /// Two streams, the reverse reads indexed in memory.
    InMemory,
    /// Two streams, the reverse reads indexed on disk.
    External,
}

/// What is wrong with the inputs that were named.
#[derive(Clone, Copy, Debug, PartialEq, Eq, Structural)]
pub enum ArgumentError {
    /// An interleaved input was named together with a forward or a reverse
    /// input.
    Conflicting,
    /// Neither an interleaved input nor both a forward and a reverse input
    /// were named.
    Incomplete,
}

/// Why no pairing came about.
#[derive(Debug)]
pub enum MakepairsError {
    /// The inputs that were named do not go together.
    Argument(ArgumentError),
    /// The external index failed.
    Index(IndexError),
}

/// The strategy that the named inputs ask for.
pub open spec fn strategy_for(infile: bool, forward: bool, reverse: bool, index: bool) -> Result<
    Strategy,
    ArgumentError,
> {
    if infile {
        if forward || reverse {
            Err(ArgumentError::Conflicting)
        } else {
            Ok(Strategy::Interleaved)
        }
    } else if forward && reverse {
        if index {
            Ok(Strategy::External)
        } else {
            Ok(Strategy::InMemory)
        }
    } else {
        Err(ArgumentError::Incomplete)
    }
}

/// Picks the strategy once, from which inputs were named and whether the
/// index is to be kept on disk.
pub fn select_strategy(infile: bool, forward: bool, reverse: bool, index: bool) -> (picked: Result<
    Strategy,
    ArgumentError,
>)
    ensures
        picked == strategy_for(infile, forward, reverse, index),
{
    if infile {
        if forward || reverse {
            Err(ArgumentError::Conflicting)
        } else {
            Ok(Strategy::Interleaved)
        }
    } else if forward && reverse {
        if index {
            Ok(Strategy::External)
        } else {
            Ok(Strategy::InMemory)
        }
    } else {
        Err(ArgumentError::Incomplete)
    }
}

impl ArgumentError {
    /// The words for the user.
    pub fn message(&self) -> (text: String)
        ensures
            text@ == match *self {
                ArgumentError::Conflicting => "--infile cannot be used with --forward or --reverse"@,
                ArgumentError::Incomplete => "Must provide either --infile or both --forward and --reverse"@,
            },
    {
        match self {
            ArgumentError::Conflicting => String::from_str(
                "--infile cannot be used with --forward or --reverse",
            ),
            ArgumentError::Incomplete => String::from_str(
                "Must provide either --infile or both --forward and --reverse",
            ),
        }
    }
}

/// The reads of an input that was named.
pub open spec fn named(input: Option<Vec<Record>>) -> Seq<crate::record::RecordView> {
    match input {
        Some(reads) => views(reads@),
        None => Seq::empty(),
    }
}

/// `done` is what `run` owes for these inputs.
pub open spec fn is_run_result(
    done: Result<(JoinOutput, Option<String>), MakepairsError>,
    forward: Option<Vec<Record>>,
    reverse: Option<Vec<Record>>,
    infile: Option<Vec<Record>>,
    index: bool,
    stats: bool,
) -> bool {
    &&& match strategy_for(infile.is_some(), forward.is_some(), reverse.is_some(), index) {
        Err(wrong) => done matches Err(MakepairsError::Argument(told)) && told == wrong,
        Ok(Strategy::Interleaved) => done matches Ok(made) && is_interleaved_join(
            made.0@,
            named(infile),
        ),
        Ok(Strategy::InMemory) => done matches Ok(made) && is_memory_join(
            made.0@,
            named(forward),
            named(reverse),
        ),
        Ok(Strategy::External) => match done {
            Ok(made) => is_disk_join(made.0@, named(forward), named(reverse)),
            Err(MakepairsError::Index(_)) => true,
            Err(MakepairsError::Argument(_)) => false,
        },
    }
    &&& done matches Ok(made) ==> match made.1 {
        Some(text) => stats && text@ == report_text(made.0.stats),
        None => !stats,
    }
}

/// Pairs the reads that were handed in.
///
/// `infile` holds the reads of an interleaved input, `forward` and
/// `reverse` those of two inputs. Naming `infile` together with one of the
/// others, or naming neither `infile` nor both of the others, is an error
/// that is found before anything else is done. With `index` the reverse
/// reads of two inputs are indexed on disk, else in memory. With `stats`
/// the report on the counters is handed back beside the outputs.
pub fn run(
    forward: Option<Vec<Record>>,
    reverse: Option<Vec<Record>>,
    infile: Option<Vec<Record>>,
    index: bool,
    stats: bool,
) -> (done: Result<(JoinOutput, Option<String>), MakepairsError>)
    ensures
        is_run_result(done, forward, reverse, infile, index, stats),
{
    let strategy = match select_strategy(
        infile.is_some(),
        forward.is_some(),
        reverse.is_some(),
        index,
    ) {
        Ok(strategy) => strategy,
        Err(wrong) => {
            return Err(MakepairsError::Argument(wrong));
        },
    };
    let out = match strategy {
        Strategy::Interleaved => run_interleaved(infile.unwrap()),
        Strategy::InMemory => run_inmemory(forward.unwrap(), reverse.unwrap()),
        Strategy::External => match run_ondisk(forward.unwrap(), reverse.unwrap()) {
            Ok(out) => out,
            Err(cause) => {
                return Err(MakepairsError::Index(cause));
            },
        },
    };
    let summary = if stats {
        Some(format_stats(&out.stats))
    } else {
        None
    };
    Ok((out, summary))
}

} // verus!
