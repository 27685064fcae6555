use vstd::prelude::*;

verus! {

/// A point in time, as nanoseconds since the Unix epoch.
#[derive(Clone, Copy, Debug, PartialEq, Eq, Structural)]
pub struct Timestamp {
    pub nanos: u128,
}

impl Timestamp {
    /// The Unix epoch: the reference before anything has been written.
    pub fn epoch() -> (r: Timestamp)
        ensures
            r.nanos == 0,
    {
        Timestamp { nanos: 0 }
    }
}

/// Whether a file whose last modification time was read as `last_modified`
/// (`None` when it could not be read) changed after `reference`.
pub open spec fn modified_after(last_modified: Option<Timestamp>, reference: Timestamp) -> bool {
    match last_modified {
        Some(t) => t.nanos > reference.nanos,
        None => false,
    }
}

/// Decides whether the watched file counts as modified: its modification
/// time is strictly later than the reference. A failed read of the
/// modification time never counts as a modification.
pub fn has_been_modified(last_modified: Option<Timestamp>, reference: Timestamp) -> (r: bool)
    ensures
        r == modified_after(last_modified, reference),
{
    match last_modified {
        Some(t) => t.nanos > reference.nanos,
        None => false,
    }
}

} // verus!
