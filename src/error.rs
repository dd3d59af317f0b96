use vstd::prelude::*;

verus! {

/// The one error of this library: a configuration that cannot be run.
#[derive(Debug, Clone, Copy, PartialEq, Eq, Structural)]
pub struct Error();

} // verus!
