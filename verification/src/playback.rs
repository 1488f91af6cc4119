//! Limits on the queue of a guild.
//!
//! A track that is being resolved counts against the queue before it is in it: it
//! holds a reservation until its request has ended.

use std::collections::HashMap;

use vstd::prelude::*;

use crate::contracts::GuildKey;
use crate::text::{decimal, spec_decimal};

verus! {

/// How many tracks may wait, and how many requests may be under way.
#[derive(Clone, Copy, Debug, PartialEq, Eq, Structural)]
pub struct PlaybackLimits {
    pub max_queue_len: usize,
    pub max_pending_enqueues: usize,
}

/// Why a request was refused.
#[derive(Clone, Copy, Debug, PartialEq, Eq, Structural)]
pub struct QueueFull {
    pub max_queue_len: usize,
    pub max_pending_enqueues: usize,
}

impl QueueFull {
    /// What the user is told.
    pub fn message(&self) -> (r: String)
        ensures
            r@ == "queue is full for this guild (configured limits: max_queue_len="@ + spec_decimal(
                self.max_queue_len as nat,
            ) + ", max_pending_enqueues="@ + spec_decimal(self.max_pending_enqueues as nat) + ")"@,
    {
        let queue = decimal(self.max_queue_len as u64);
        let pending = decimal(self.max_pending_enqueues as u64);
        "queue is full for this guild (configured limits: max_queue_len=".to_owned().concat(
            queue.as_str(),
        ).concat(", max_pending_enqueues=").concat(pending.as_str()).concat(")")
    }
}

/// A request that is under way.
#[derive(Debug, PartialEq, Eq)]
pub struct PendingReservation {
    pub guild_id: GuildKey,
}

impl PendingReservation {
    pub fn new(guild_id: GuildKey) -> (r: Self)
        ensures
            r == (PendingReservation { guild_id }),
    {
        PendingReservation { guild_id }
    }
}

/// The requests that are under way, by guild.
#[derive(Debug)]
pub struct ConfiguredPlayback {
    pub limits: PlaybackLimits,
    pub pending_by_guild: HashMap<u64, usize>,
}

/// How many requests of a guild are under way.
pub open spec fn pending_of(pending: Map<u64, usize>, guild_id: GuildKey) -> nat {
    if pending.dom().contains(guild_id.0) {
        pending[guild_id.0] as nat
    } else {
        0
    }
}

/// Whether a guild may not ask for another track: what waits and what is under way
/// fills the queue, or too much is under way.
pub open spec fn is_full(limits: PlaybackLimits, queued: usize, pending: nat) -> bool {
    queued + pending >= limits.max_queue_len || pending >= limits.max_pending_enqueues
}

impl ConfiguredPlayback {
    /// Whether every guild that is listed has a request under way, and none has
    /// more than the limit.
    pub open spec fn wf(&self) -> bool {
        forall|guild: u64|
            self.pending_by_guild@.dom().contains(guild) ==> 0
                < #[trigger] self.pending_by_guild@[guild] <= self.limits.max_pending_enqueues
    }

    pub fn new(limits: PlaybackLimits) -> (r: Self)
        ensures
            r.limits == limits,
            r.pending_by_guild@ == Map::<u64, usize>::empty(),
            r.wf(),
    {
        ConfiguredPlayback { limits, pending_by_guild: HashMap::new() }
    }

    /// Reserves a place for a track of a guild in whose queue `queued` tracks wait.
    pub fn reserve_enqueue(&mut self, guild_id: GuildKey, queued: usize) -> (r: Result<
        PendingReservation,
        QueueFull,
    >)
        requires
            old(self).wf(),
        ensures
            final(self).wf(),
            final(self).limits == old(self).limits,
            ({
                let pending = pending_of(old(self).pending_by_guild@, guild_id);
                if is_full(old(self).limits, queued, pending) {
                    &&& r == Err::<PendingReservation, QueueFull>(
                        QueueFull {
                            max_queue_len: old(self).limits.max_queue_len,
                            max_pending_enqueues: old(self).limits.max_pending_enqueues,
                        },
                    )
                    &&& final(self).pending_by_guild@ == old(self).pending_by_guild@
                } else {
                    &&& r == Ok::<PendingReservation, QueueFull>(PendingReservation { guild_id })
                    &&& final(self).pending_by_guild@ == old(self).pending_by_guild@.insert(
                        guild_id.0,
                        (pending + 1) as usize,
                    )
                }
            }),
    {
        broadcast use vstd::std_specs::hash::group_hash_axioms;

        let pending: usize = match self.pending_by_guild.get(&guild_id.0) {
            Some(count) => *count,
            None => 0,
        };
        if pending >= self.limits.max_queue_len || queued >= self.limits.max_queue_len - pending
            || pending >= self.limits.max_pending_enqueues {
            return Err(
                QueueFull {
                    max_queue_len: self.limits.max_queue_len,
                    max_pending_enqueues: self.limits.max_pending_enqueues,
                },
            );
        }
        self.pending_by_guild.insert(guild_id.0, pending + 1);
        Ok(PendingReservation::new(guild_id))
    }

    /// Gives a reservation back when its request has ended.
    pub fn release(&mut self, reservation: PendingReservation)
        requires
            old(self).wf(),
        ensures
            final(self).wf(),
            final(self).limits == old(self).limits,
            ({
                let pending = pending_of(old(self).pending_by_guild@, reservation.guild_id);
                final(self).pending_by_guild@ == if pending > 1 {
                    old(self).pending_by_guild@.insert(
                        reservation.guild_id.0,
                        (pending - 1) as usize,
                    )
                } else {
                    old(self).pending_by_guild@.remove(reservation.guild_id.0)
                }
            }),
    {
        broadcast use vstd::std_specs::hash::group_hash_axioms;

        let guild: u64 = reservation.guild_id.0;
        let pending: Option<usize> = match self.pending_by_guild.get(&guild) {
            Some(count) => Some(*count),
            None => None,
        };
        match pending {
            Some(count) => {
                if count > 1 {
                    self.pending_by_guild.insert(guild, count - 1);
                } else {
                    self.pending_by_guild.remove(&guild);
                }
            },
            None => {
                assert(self.pending_by_guild@.remove(guild) =~= self.pending_by_guild@);
            },
        }
    }
}

/// Giving a reservation back undoes it: the requests under way are those from
/// before it.
pub proof fn release_undoes_reserve(
    before: Map<u64, usize>,
    reserved: Map<u64, usize>,
    released: Map<u64, usize>,
    guild_id: GuildKey,
)
    requires
        forall|guild: u64| before.dom().contains(guild) ==> 0 < #[trigger] before[guild],
        pending_of(before, guild_id) < usize::MAX,
        reserved == before.insert(guild_id.0, (pending_of(before, guild_id) + 1) as usize),
        released == if pending_of(reserved, guild_id) > 1 {
            reserved.insert(guild_id.0, (pending_of(reserved, guild_id) - 1) as usize)
        } else {
            reserved.remove(guild_id.0)
        },
    ensures
        released == before,
{
    assert(released =~= before);
}

/// A reservation is never granted beyond the limits, and counts for its guild
/// alone.
pub proof fn reservations_respect_the_limits(
    limits: PlaybackLimits,
    before: Map<u64, usize>,
    after: Map<u64, usize>,
    guild_id: GuildKey,
    other: GuildKey,
    queued: usize,
)
    requires
        !is_full(limits, queued, pending_of(before, guild_id)),
        after == before.insert(guild_id.0, (pending_of(before, guild_id) + 1) as usize),
        other != guild_id,
    ensures
        pending_of(after, guild_id) == pending_of(before, guild_id) + 1,
        pending_of(after, guild_id) <= limits.max_pending_enqueues,
        queued + pending_of(after, guild_id) <= limits.max_queue_len,
        pending_of(after, other) == pending_of(before, other),
{
}

/// A queue takes another request just as long as the queued and the pending ones together
/// stay below its length and the pending ones below their own limit.
pub proof fn queues_take_requests_below_their_limits(
    limits: PlaybackLimits,
    queued: usize,
    pending: nat,
)
    ensures
        queued + pending + 1 <= limits.max_queue_len && pending + 1 <= limits.max_pending_enqueues
            ==> !is_full(limits, queued, pending),
        queued + pending + 1 > limits.max_queue_len ==> is_full(limits, queued, pending),
        pending + 1 > limits.max_pending_enqueues ==> is_full(limits, queued, pending),
{
}

/// What is pending for a guild is what was recorded for it, and nothing without a record.
pub proof fn unrecorded_guilds_have_nothing_pending(pending: Map<u64, usize>, guild_id: GuildKey)
    ensures
        !pending.dom().contains(guild_id.0) ==> pending_of(pending, guild_id) == 0,
        forall|count: usize|
            pending_of(#[trigger] pending.insert(guild_id.0, count), guild_id) == count,
        pending_of(pending.remove(guild_id.0), guild_id) == 0,
{
}

} // verus!
