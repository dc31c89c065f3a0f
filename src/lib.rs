//! Decisions of a batch converter that turns a directory of game records
//! into newline-delimited event files: which directory entries are taken,
//! what each output file is named, what text it holds, and when the batch as
//! a whole succeeds.
use vstd::prelude::*;

pub mod batch;
pub mod file_name;
pub mod lines;

verus! {

} // verus!
