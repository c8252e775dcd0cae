//! The command-line surface as the library sees it.

use vstd::prelude::*;

verus! {

/// The parsed command line: at most an explicit interface to capture on.
/// The host parses the real command line and hands the result over as this;
/// absence enters selection mode, presence attempts direct capture.
pub struct Args {
    pub interface: Option<String>,
}

} // verus!
