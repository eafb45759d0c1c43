//! Command-line arguments of the bar.

use vstd::prelude::*;

verus! {

/// The recognized command-line arguments.
#[derive(Debug)]
pub struct Args {
    /// Print the default config in the named format (yaml when the value
    /// is absent) and exit.
    pub print_default_config: Option<Option<String>>,
}

} // verus!
