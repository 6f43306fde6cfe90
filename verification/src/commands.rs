//! The operations of the tool, each on values that were read already.

pub mod makepairs;
pub mod joinpairs;
pub mod addinfo;
pub mod splitpairs;
pub mod checkpairs;
