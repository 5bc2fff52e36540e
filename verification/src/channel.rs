//! The channel registry: which logical lanes exist, with what reliability
//! class and outbound capacity. The native adapter keeps one registry for all
//! of its connections; the remote adapter keeps one as the blueprint applied
//! to each newly accepted connection.

use vstd::prelude::*;

use crate::shared::{ChannelAlreadyRegistered, ChannelType};

verus! {

/// One registered channel: its byte id, reliability class and per-connection
/// outbound capacity.
#[derive(Clone, Copy, Debug, PartialEq, Eq, Structural)]
pub struct ChannelEntry {
    pub id: u8,
    pub channel_type: ChannelType,
    pub capacity: usize,
}

/// An ordered collection of channel entries with pairwise distinct ids.
#[derive(Clone, Debug)]
pub struct ChannelRegistry {
    pub entries: Vec<ChannelEntry>,
}

impl ChannelRegistry {
    /// Ids are pairwise distinct.
    pub open spec fn wf(self) -> bool {
        forall|i: int, j: int|
            0 <= i < j < self.entries@.len() ==> self.entries@[i].id != self.entries@[j].id
    }

    pub open spec fn contains_id(self, id: u8) -> bool {
        exists|i: int| 0 <= i < self.entries@.len() && self.entries@[i].id == id
    }

    pub fn new() -> (r: Self)
        ensures
            r.wf(),
            r.entries@.len() == 0,
    {
        Self { entries: Vec::new() }
    }

    /// The index of the entry for `id`, if one exists.
    pub fn find(&self, id: u8) -> (r: Option<usize>)
        ensures
            match r {
                Some(i) => i < self.entries@.len() && self.entries@[i as int].id == id,
                None => !self.contains_id(id),
            },
    {
        let mut i: usize = 0;
        while i < self.entries.len()
            invariant
                i <= self.entries@.len(),
                forall|k: int| 0 <= k < i ==> self.entries@[k].id != id,
            decreases self.entries@.len() - i,
        {
            if self.entries[i].id == id {
                return Some(i);
            }
            i += 1;
        }
        None
    }

    /// Registers a channel. Fails, leaving the registry unchanged, exactly
    /// when the id is already present — whatever the new settings are.
    pub fn register(
        &mut self,
        id: u8,
        channel_type: ChannelType,
        capacity: usize,
    ) -> (r: Result<(), ChannelAlreadyRegistered>)
        requires
            old(self).wf(),
        ensures
            final(self).wf(),
            final(self).contains_id(id),
            old(self).contains_id(id) ==> r == Err::<(), ChannelAlreadyRegistered>(
                ChannelAlreadyRegistered { channel: id },
            ) && *final(self) == *old(self),
            !old(self).contains_id(id) ==> r == Ok::<(), ChannelAlreadyRegistered>(())
                && final(self).entries@ == old(self).entries@.push(
                ChannelEntry { id, channel_type, capacity },
            ),
    {
        if self.find(id).is_some() {
            Err(ChannelAlreadyRegistered { channel: id })
        } else {
            self.entries.push(ChannelEntry { id, channel_type, capacity });
            proof {
                assert(self.entries@[self.entries@.len() - 1].id == id);
            }
            Ok(())
        }
    }
}

/// Registering the same channel id twice on one registry always yields
/// `ChannelAlreadyRegistered` on the second attempt, regardless of the
/// settings either registration carries: after a successful registration of
/// `id` the registry contains `id`, and `register` fails exactly on the ids it
/// contains.
pub proof fn lemma_second_registration_fails(
    before: ChannelRegistry,
    after: ChannelRegistry,
    id: u8,
    channel_type: ChannelType,
    capacity: usize,
)
    requires
        !before.contains_id(id),
        after.entries@ == before.entries@.push(ChannelEntry { id, channel_type, capacity }),
    ensures
        after.contains_id(id),
{
    assert(after.entries@[after.entries@.len() - 1].id == id);
}

} // verus!
