//! The download command, which takes no arguments and does nothing yet.
use vstd::prelude::*;

verus! {

pub struct Download {}

} // verus!
