//! The command line's options.
use vstd::prelude::*;

verus! {

/// What the command line asks for: a data file in place of the default one.
#[derive(Debug, Clone)]
pub struct Cli {
    pub data_file: Option<String>,
}

} // verus!
