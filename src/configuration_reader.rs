use vstd::prelude::*;

verus! {

/// The options of a foreground run: the watched file, and the seconds
/// between two checks.
#[derive(Clone, Debug)]
pub struct Configuration {
    pub path: String,
    pub polling_time: u64,
}

} // verus!
