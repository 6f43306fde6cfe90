//! Re-pairing of paired-end sequence reads.
//!
//! Two collections of reads that were once in step are matched again by a
//! canonical key taken from each read's identifier. Matched reads go to the
//! paired outputs, the rest to the singleton outputs. A single stream that
//! alternates between forward and reverse reads is paired by position.
//!
//! The joins are verified against the mathematical model in [`model`] and
//! [`interleaved`]; what follows from the model for every input is proved
//! in [`laws`], on the facts of [`facts`]. The calls into the hash map, the store on disk and the
//! standard library's text functions stand in [`index`], [`store`] and
//! [`text`], behind contracts that are believed, not proved.

pub mod codec;
pub mod commands;
pub mod disk_join;
pub mod facts;
pub mod ident;
pub mod index;
pub mod interleaved;
pub mod laws;
pub mod memory_join;
pub mod model;
pub mod output;
pub mod payload;
pub mod record;
pub mod stats;
pub mod store;
pub mod text;
pub mod utils;
