//! Routing of database notifications to the worker registered for their
//! channel.

use vstd::prelude::*;

verus! {

/// No channel is registered twice.
pub open spec fn channels_distinct(channels: Seq<String>) -> bool {
    forall|i: int, j: int|
        0 <= i < j < channels.len() ==> (#[trigger] channels[i])@ != (#[trigger] channels[j])@
}

/// Index of the worker registered for `channel`, among workers registered on
/// distinct channels, or `None` when no worker listens on it.
pub fn worker_for_channel(channels: &Vec<String>, channel: &str) -> (found: Option<usize>)
    requires
        channels_distinct(channels@),
    ensures
        match found {
            Some(i) => i < channels@.len() && channels@[i as int]@ == channel@ && forall|j: int|
                0 <= j < channels@.len() && j != i ==> (#[trigger] channels@[j])@ != channel@,
            None => forall|j: int| 0 <= j < channels@.len() ==> (#[trigger] channels@[j])@ != channel@,
        },
{
    let wanted = String::from_str(channel);
    let mut i: usize = 0;
    while i < channels.len()
        invariant
            i <= channels@.len(),
            wanted@ == channel@,
            channels_distinct(channels@),
            forall|j: int| 0 <= j < i ==> (#[trigger] channels@[j])@ != channel@,
        decreases channels@.len() - i,
    {
        if channels[i] == wanted {
            proof {
                assert forall|j: int| 0 <= j < channels@.len() && j != i implies (
                #[trigger] channels@[j])@ != channel@ by {
                    if j < i {
                        assert(channels@[j]@ != channels@[i as int]@);
                    } else {
                        assert(channels@[i as int]@ != channels@[j]@);
                    }
                }
            }
            return Some(i);
        }
        i = i + 1;
    }
    None
}

} // verus!
