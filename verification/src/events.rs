//! Lifecycle transitions a host reports for a loaded record, and which
//! of them a handler should report. The host's event delivery itself is
//! outside this library; only the decision is made here.

use vstd::prelude::*;

verus! {

/// A lifecycle transition of a loaded record, as a host reports it.
#[derive(Clone, Copy, Debug, PartialEq, Eq, Structural)]
pub enum AssetEvent {
    Added,
    Modified,
    Removed,
    Unused,
    LoadedWithDependencies,
}

/// True exactly for the transitions a handler reports: a record that was
/// added or modified. The remaining transitions are ignored.
pub fn should_log(event: &AssetEvent) -> (b: bool)
    ensures
        b <==> (event is Added || event is Modified),
{
    match event {
        AssetEvent::Added => true,
        AssetEvent::Modified => true,
        _ => false,
    }
}

} // verus!
