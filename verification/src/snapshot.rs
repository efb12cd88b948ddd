//! A point-in-time view of the outside collaborators the model consults:
//! which voice channel each user occupies (presence lookup) and which
//! channels have an active item, with the user who queued it
//! (active-playback signal). The caller reads both from the transport and
//! speaker components and hands them in as plain data, fresh per call.

use vstd::prelude::*;

use crate::assoc::{distinct_keys, has_key, key_index, lemma_key_index, lemma_push_key,
    lemma_remove_key, lemma_remove_insert_is_update, lemma_update_value, value_of};

verus! {

/// How many pairs of `s` map to the channel `c`.
pub open spec fn count_in_channel(s: Seq<(u64, u64)>, c: u64) -> int
    decreases s.len(),
{
    if s.len() == 0 {
        0
    } else {
        count_in_channel(s.drop_last(), c) + if s.last().1 == c { 1int } else { 0int }
    }
}

/// Presence and active-playback data for one guild, read fresh per call.
pub struct VoiceSnapshot {
    /// Which voice channel each user occupies.
    presence: Vec<(u64, u64)>,
    /// For each channel with an active item, the user who queued that item.
    active: Vec<(u64, u64)>,
}

impl VoiceSnapshot {
    /// Each user occupies at most one channel; each channel has at most
    /// one active item.
    pub closed spec fn wf(self) -> bool {
        distinct_keys(self.presence@) && distinct_keys(self.active@)
    }

    /// The voice channel `user` occupies, if any.
    pub closed spec fn user_channel(self, user: u64) -> Option<u64> {
        if has_key(self.presence@, user) {
            Some(value_of(self.presence@, user))
        } else {
            None
        }
    }

    /// `user` occupies the voice channel `channel`.
    pub open spec fn user_in_channel(self, user: u64, channel: u64) -> bool {
        self.user_channel(user) == Some(channel)
    }

    /// An item is active (playing or paused) in `channel`.
    pub closed spec fn is_active(self, channel: u64) -> bool {
        has_key(self.active@, channel)
    }

    /// The user who queued the item active in `channel`, if one is active.
    pub closed spec fn active_user(self, channel: u64) -> Option<u64> {
        if has_key(self.active@, channel) {
            Some(value_of(self.active@, channel))
        } else {
            None
        }
    }

    /// How many users occupy `channel`.
    pub closed spec fn occupants(self, channel: u64) -> int {
        count_in_channel(self.presence@, channel)
    }

    /// A snapshot with no user present and no channel active.
    pub fn new() -> (r: Self)
        ensures
            r.wf(),
            forall|u: u64| r.user_channel(u) == Option::<u64>::None,
            forall|c: u64| !r.is_active(c),
            forall|c: u64| r.occupants(c) == 0,
    {
        VoiceSnapshot { presence: Vec::new(), active: Vec::new() }
    }

    /// The index of `user`'s presence pair, if present.
    fn find_presence(&self, user: u64) -> (r: Option<usize>)
        ensures
            match r {
                Some(i) => i < self.presence@.len() && self.presence@[i as int].0 == user,
                None => !has_key(self.presence@, user),
            },
    {
        let n = self.presence.len();
        let mut i: usize = 0;
        #[verifier::loop_isolation(false)]
        while i < n
            invariant
                i <= n,
                forall|j: int| 0 <= j < i ==> self.presence@[j].0 != user,
            decreases n - i,
        {
            if self.presence[i].0 == user {
                return Some(i);
            }
            i = i + 1;
        }
        None
    }

    /// The index of `channel`'s active pair, if one is active.
    fn find_active(&self, channel: u64) -> (r: Option<usize>)
        ensures
            match r {
                Some(i) => i < self.active@.len() && self.active@[i as int].0 == channel,
                None => !has_key(self.active@, channel),
            },
    {
        let n = self.active.len();
        let mut i: usize = 0;
        #[verifier::loop_isolation(false)]
        while i < n
            invariant
                i <= n,
                forall|j: int| 0 <= j < i ==> self.active@[j].0 != channel,
            decreases n - i,
        {
            if self.active[i].0 == channel {
                return Some(i);
            }
            i = i + 1;
        }
        None
    }

    /// Whether `user` occupies `channel`.
    pub fn user_in_channel_q(&self, user: u64, channel: u64) -> (r: bool)
        requires
            self.wf(),
        ensures
            r == self.user_in_channel(user, channel),
    {
        match self.find_presence(user) {
            Some(i) => {
                proof {
                    lemma_key_index(self.presence@, user, i as int);
                }
                self.presence[i].1 == channel
            },
            None => false,
        }
    }

    /// The voice channel `user` occupies, if any.
    pub fn user_channel_q(&self, user: u64) -> (r: Option<u64>)
        requires
            self.wf(),
        ensures
            r == self.user_channel(user),
    {
        match self.find_presence(user) {
            Some(i) => {
                proof {
                    lemma_key_index(self.presence@, user, i as int);
                }
                Some(self.presence[i].1)
            },
            None => None,
        }
    }

    /// Whether an item is active in `channel`.
    pub fn is_active_q(&self, channel: u64) -> (r: bool)
        requires
            self.wf(),
        ensures
            r == self.is_active(channel),
    {
        match self.find_active(channel) {
            Some(i) => {
                proof {
                    lemma_key_index(self.active@, channel, i as int);
                }
                true
            },
            None => false,
        }
    }

    /// The user who queued the item active in `channel`, if one is active.
    pub fn active_user_q(&self, channel: u64) -> (r: Option<u64>)
        requires
            self.wf(),
        ensures
            r == self.active_user(channel),
    {
        match self.find_active(channel) {
            Some(i) => {
                proof {
                    lemma_key_index(self.active@, channel, i as int);
                }
                Some(self.active[i].1)
            },
            None => None,
        }
    }

    /// Counts the users occupying `channel`.
    pub fn occupancy(&self, channel: u64) -> (r: usize)
        requires
            self.wf(),
        ensures
            r as int == self.occupants(channel),
    {
        let n = self.presence.len();
        let mut count: usize = 0;
        let mut i: usize = 0;
        #[verifier::loop_isolation(false)]
        while i < n
            invariant
                i <= n,
                count <= i,
                count as int == count_in_channel(self.presence@.take(i as int), channel),
            decreases n - i,
        {
            proof {
                assert(self.presence@.take(i + 1).drop_last() =~= self.presence@.take(i as int));
                assert(self.presence@.take(i + 1).last() == self.presence@[i as int]);
            }
            if self.presence[i].1 == channel {
                count = count + 1;
            }
            i = i + 1;
        }
        proof {
            assert(self.presence@.take(n as int) =~= self.presence@);
        }
        count
    }

    /// Records `user` as occupying `channel`, superseding any earlier
    /// presence.
    pub fn join(&mut self, user: u64, channel: u64)
        requires
            old(self).wf(),
        ensures
            final(self).wf(),
            final(self).user_channel(user) == Some(channel),
            forall|u: u64| u != user ==> final(self).user_channel(u) == old(self).user_channel(u),
            forall|c: u64| final(self).is_active(c) == old(self).is_active(c),
            forall|c: u64| final(self).active_user(c) == old(self).active_user(c),
    {
        match self.find_presence(user) {
            Some(i) => {
                proof {
                    lemma_key_index(self.presence@, user, i as int);
                }
                let _ = self.presence.remove(i);
                self.presence.insert(i, (user, channel));
                proof {
                    lemma_remove_insert_is_update(old(self).presence@, i as int, (user, channel));
                    lemma_update_value(old(self).presence@, i as int, channel);
                }
            },
            None => {
                self.presence.push((user, channel));
                proof {
                    lemma_push_key(old(self).presence@, user, channel);
                }
            },
        }
    }

    /// Removes `user` from whatever voice channel it occupied.
    pub fn leave(&mut self, user: u64)
        requires
            old(self).wf(),
        ensures
            final(self).wf(),
            final(self).user_channel(user) == Option::<u64>::None,
            forall|u: u64| u != user ==> final(self).user_channel(u) == old(self).user_channel(u),
            forall|c: u64| final(self).is_active(c) == old(self).is_active(c),
            forall|c: u64| final(self).active_user(c) == old(self).active_user(c),
    {
        match self.find_presence(user) {
            Some(i) => {
                proof {
                    lemma_key_index(self.presence@, user, i as int);
                    lemma_remove_key(self.presence@, i as int);
                }
                let _ = self.presence.remove(i);
            },
            None => {},
        }
    }

    /// Records the item queued by `user` as the one active in `channel`.
    pub fn set_active(&mut self, channel: u64, user: u64)
        requires
            old(self).wf(),
        ensures
            final(self).wf(),
            final(self).is_active(channel),
            final(self).active_user(channel) == Some(user),
            forall|c: u64| c != channel ==> final(self).is_active(c) == old(self).is_active(c),
            forall|c: u64| c != channel ==> final(self).active_user(c) == old(self).active_user(c),
            forall|u: u64| final(self).user_channel(u) == old(self).user_channel(u),
    {
        match self.find_active(channel) {
            Some(i) => {
                proof {
                    lemma_key_index(self.active@, channel, i as int);
                }
                let _ = self.active.remove(i);
                self.active.insert(i, (channel, user));
                proof {
                    lemma_remove_insert_is_update(old(self).active@, i as int, (channel, user));
                    lemma_update_value(old(self).active@, i as int, user);
                }
            },
            None => {
                self.active.push((channel, user));
                proof {
                    lemma_push_key(old(self).active@, channel, user);
                }
            },
        }
    }

    /// Records `channel` as having no active item.
    pub fn clear_active(&mut self, channel: u64)
        requires
            old(self).wf(),
        ensures
            final(self).wf(),
            !final(self).is_active(channel),
            forall|c: u64| c != channel ==> final(self).is_active(c) == old(self).is_active(c),
            forall|c: u64| c != channel ==> final(self).active_user(c) == old(self).active_user(c),
            forall|u: u64| final(self).user_channel(u) == old(self).user_channel(u),
    {
        match self.find_active(channel) {
            Some(i) => {
                proof {
                    lemma_key_index(self.active@, channel, i as int);
                    lemma_remove_key(self.active@, i as int);
                }
                let _ = self.active.remove(i);
            },
            None => {},
        }
    }
}

} // verus!
