//! Queue/playback orchestration for one guild.
//!
//! A [`GuildModel`] owns one [`FairQueue`], one [`VoteTracker`] per
//! (channel, vote kind) pair, a stopped-flag per channel, and the text
//! channel for status messages. Callers hold the guild's exclusive lock
//! for the duration of each operation; the model itself never stores
//! playback status beyond the stopped marker, and consults a fresh
//! [`VoiceSnapshot`] for presence and activity.

use vstd::prelude::*;

use crate::assoc::{distinct, distinct_keys, has_key, key_index, lemma_key_index,
    lemma_push_elem, lemma_push_key, lemma_remove_elem, lemma_remove_insert_is_update,
    lemma_remove_key, lemma_update_value, value_of};
use crate::fair_queue::FairQueue;
use crate::snapshot::VoiceSnapshot;
use crate::vote::{cast_ballots, cast_result, majority, VoteStatus, VoteTracker, VoteType};

verus! {

/// Outcome of asking for the next entry when a new item might need to
/// start playing.
pub enum NextEntry<E> {
    /// Start playing this entry; the channel's stopped mark is cleared.
    Entry(E),
    /// The channel already has an active item; nothing was touched.
    AlreadyPlaying,
    /// No queued entry of a present user exists; nothing was touched.
    NoneAvailable,
}

/// Outcome of a "replace my latest request" command.
pub enum ReplaceStatus<E> {
    /// Nothing of the user's was pending or active: the entry was queued.
    Queued,
    /// A pending entry was swapped in place; this is the one swapped out.
    ReplacedInQueue(E),
    /// The user's only entry is the one active in this channel: the new
    /// entry was queued and the caller should stop playback there and ask
    /// for the next entry.
    ReplacedCurrent(u64),
}

/// What to do after a channel's active item ended.
pub enum EndedAction<E> {
    /// The channel was stopped by vote: remain idle, post nothing.
    Halt,
    /// Start playing this entry.
    Play(E),
    /// Nothing is queued for the channel: signal that playback finished.
    Idle,
}

/// The step from `pre` to `post` hands out `e` as the next entry to play
/// in `channel`: `e` is the head of the FIFO of the fairly selected user,
/// who becomes last-served; the channel's stopped mark is cleared and its
/// ballots are voided; nothing else changes.
pub open spec fn serves_next<E>(
    pre: GuildModel<E>,
    post: GuildModel<E>,
    snap: VoiceSnapshot,
    channel: u64,
    e: E,
) -> bool {
    match pre.selected_user(snap, channel) {
        Option::Some(u) => {
            &&& pre.eligible(snap, channel, u)
            &&& snap.user_in_channel(u, channel)
            &&& pre.entries(u).len() > 0
            &&& e == pre.entries(u)[0]
            &&& post.entries(u) == pre.entries(u).skip(1)
            &&& (forall|v: u64| v != u ==> post.entries(v) == pre.entries(v))
            &&& post.cursor() == Some(u)
            &&& !post.is_stopped(channel)
            &&& (forall|c: u64| c != channel ==> post.is_stopped(c) == pre.is_stopped(c))
            &&& (forall|k: VoteType| post.ballots(channel, k) == Seq::<u64>::empty())
            &&& (forall|c2: u64, k2: VoteType| c2 != channel ==>
                post.ballots(c2, k2) == pre.ballots(c2, k2))
            &&& post.msg_channel() == pre.msg_channel()
        },
        Option::None => false,
    }
}

/// Queue, votes, stopped marks and message channel for one guild.
pub struct GuildModel<E> {
    message_channel: Option<u64>,
    queue: FairQueue<E>,
    stopped: Vec<u64>,
    votes: Vec<((u64, VoteType), VoteTracker)>,
}

impl<E> GuildModel<E> {
    /// The queue is well-formed, the stopped set holds no duplicates, and
    /// each (channel, kind) pair owns at most one well-formed tracker.
    pub closed spec fn wf(self) -> bool {
        &&& self.queue.wf()
        &&& distinct(self.stopped@)
        &&& distinct_keys(self.votes@)
        &&& forall|i: int| 0 <= i < self.votes@.len() ==> (#[trigger] self.votes@[i]).1.wf()
    }

    /// The pending entries of `user`, oldest first.
    pub closed spec fn entries(self, user: u64) -> Seq<E> {
        self.queue.entries(user)
    }

    /// The user the queue served last, if any.
    pub closed spec fn cursor(self) -> Option<u64> {
        self.queue.cursor()
    }

    /// `user` has a pending entry and occupies `channel`.
    pub closed spec fn eligible(self, snap: VoiceSnapshot, channel: u64, user: u64) -> bool {
        self.queue.eligible(snap, channel, user)
    }

    /// The user the queue would serve next for `channel`.
    pub closed spec fn selected_user(self, snap: VoiceSnapshot, channel: u64) -> Option<u64> {
        self.queue.selected_user(snap, channel)
    }

    /// `channel` was halted by a stop vote and not yet given a new entry.
    pub closed spec fn is_stopped(self, channel: u64) -> bool {
        self.stopped@.contains(channel)
    }

    /// The ballots recorded for `channel` under `kind`.
    pub closed spec fn ballots(self, channel: u64, kind: VoteType) -> Seq<u64> {
        if has_key(self.votes@, (channel, kind)) {
            value_of(self.votes@, (channel, kind)).ballots()
        } else {
            Seq::<u64>::empty()
        }
    }

    /// The text channel for asynchronous status updates, if one is set.
    pub closed spec fn msg_channel(self) -> Option<u64> {
        self.message_channel
    }

    /// A fresh model: nothing queued, nothing stopped, no ballots, no
    /// message channel.
    pub fn new() -> (r: Self)
        ensures
            r.wf(),
            r.msg_channel() == Option::<u64>::None,
            r.cursor() == Option::<u64>::None,
            forall|u: u64| r.entries(u) == Seq::<E>::empty(),
            forall|c: u64| !r.is_stopped(c),
            forall|c: u64, k: VoteType| r.ballots(c, k) == Seq::<u64>::empty(),
    {
        let r = GuildModel {
            message_channel: None,
            queue: FairQueue::new(),
            stopped: Vec::new(),
            votes: Vec::new(),
        };
        proof {
            assert forall|c: u64, k: VoteType| r.ballots(c, k) == Seq::<u64>::empty() by {
                assert(!has_key(r.votes@, (c, k)));
            }
        }
        r
    }

    /// Where to post asynchronous status updates, if anywhere.
    pub fn message_channel(&self) -> (r: Option<u64>)
        ensures
            r == self.msg_channel(),
    {
        self.message_channel
    }

    /// Sets where to post asynchronous status updates; last write wins.
    pub fn set_message_channel(&mut self, channel: Option<u64>)
        requires
            old(self).wf(),
        ensures
            final(self).wf(),
            final(self).msg_channel() == channel,
            forall|u: u64| final(self).entries(u) == old(self).entries(u),
            final(self).cursor() == old(self).cursor(),
            forall|c: u64| final(self).is_stopped(c) == old(self).is_stopped(c),
            forall|c: u64, k: VoteType| final(self).ballots(c, k) == old(self).ballots(c, k),
    {
        self.message_channel = channel;
    }

    /// Appends `entry` to `user`'s FIFO. No other state changes.
    pub fn push_entry(&mut self, user: u64, entry: E)
        requires
            old(self).wf(),
        ensures
            final(self).wf(),
            final(self).entries(user) == old(self).entries(user).push(entry),
            forall|u: u64| u != user ==> final(self).entries(u) == old(self).entries(u),
            final(self).cursor() == old(self).cursor(),
            forall|c: u64| final(self).is_stopped(c) == old(self).is_stopped(c),
            forall|c: u64, k: VoteType| final(self).ballots(c, k) == old(self).ballots(c, k),
            final(self).msg_channel() == old(self).msg_channel(),
    {
        self.queue.push(user, entry);
    }

    /// The index of `channel` in the stopped set, if present.
    fn find_stopped(&self, channel: u64) -> (r: Option<usize>)
        ensures
            match r {
                Some(i) => i < self.stopped@.len() && self.stopped@[i as int] == channel,
                None => !self.stopped@.contains(channel),
            },
    {
        let n = self.stopped.len();
        let mut i: usize = 0;
        #[verifier::loop_isolation(false)]
        while i < n
            invariant
                i <= n,
                forall|j: int| 0 <= j < i ==> self.stopped@[j] != channel,
            decreases n - i,
        {
            if self.stopped[i] == channel {
                return Some(i);
            }
            i = i + 1;
        }
        None
    }

    /// Whether `channel` is marked stopped. Read by the playback-ended
    /// handler to decide between auto-advancing and remaining idle.
    pub fn is_channel_stopped(&self, channel: u64) -> (r: bool)
        ensures
            r == self.is_stopped(channel),
    {
        match self.find_stopped(channel) {
            Some(_) => true,
            None => false,
        }
    }

    /// Marks `channel` as halted. Set only by a successful stop vote.
    pub fn set_channel_stopped(&mut self, channel: u64)
        requires
            old(self).wf(),
        ensures
            final(self).wf(),
            final(self).is_stopped(channel),
            forall|c: u64| c != channel ==> final(self).is_stopped(c) == old(self).is_stopped(c),
            forall|u: u64| final(self).entries(u) == old(self).entries(u),
            final(self).cursor() == old(self).cursor(),
            forall|c: u64, k: VoteType| final(self).ballots(c, k) == old(self).ballots(c, k),
            final(self).msg_channel() == old(self).msg_channel(),
    {
        match self.find_stopped(channel) {
            Some(i) => {},
            None => {
                self.stopped.push(channel);
                proof {
                    lemma_push_elem(old(self).stopped@, channel);
                }
            },
        }
    }

    /// Unmarks `channel`: called exactly when a new item begins playing
    /// in it.
    fn clear_stopped_mark(&mut self, channel: u64)
        requires
            old(self).wf(),
        ensures
            distinct(final(self).stopped@),
            !final(self).stopped@.contains(channel),
            forall|c: u64| c != channel ==>
                final(self).stopped@.contains(c) == old(self).stopped@.contains(c),
            final(self).queue == old(self).queue,
            final(self).votes == old(self).votes,
            final(self).message_channel == old(self).message_channel,
    {
        match self.find_stopped(channel) {
            Some(i) => {
                proof {
                    lemma_remove_elem(old(self).stopped@, i as int);
                }
                let _ = self.stopped.remove(i);
            },
            None => {},
        }
    }

    /// The index of the tracker for (`channel`, `kind`), if one exists.
    fn find_vote(&self, channel: u64, kind: VoteType) -> (r: Option<usize>)
        ensures
            match r {
                Some(i) => i < self.votes@.len() && self.votes@[i as int].0 == (channel, kind),
                None => !has_key(self.votes@, (channel, kind)),
            },
    {
        let n = self.votes.len();
        let mut i: usize = 0;
        #[verifier::loop_isolation(false)]
        while i < n
            invariant
                i <= n,
                forall|j: int| 0 <= j < i ==> self.votes@[j].0 != (channel, kind),
            decreases n - i,
        {
            let key = self.votes[i].0;
            if key.0 == channel && key.1 == kind {
                return Some(i);
            }
            i = i + 1;
        }
        None
    }

    /// Drops every ballot for `channel`: called when the channel's active
    /// item stops existing, so votes about it are void.
    fn clear_channel_votes(&mut self, channel: u64)
        requires
            old(self).wf(),
        ensures
            distinct_keys(final(self).votes@),
            forall|i: int| 0 <= i < final(self).votes@.len() ==>
                (#[trigger] final(self).votes@[i]).1.wf(),
            forall|k: VoteType| !has_key(final(self).votes@, (channel, k)),
            forall|c2: u64, k2: VoteType| c2 != channel ==>
                has_key(final(self).votes@, (c2, k2)) == has_key(old(self).votes@, (c2, k2)),
            forall|c2: u64, k2: VoteType| c2 != channel && has_key(old(self).votes@, (c2, k2)) ==>
                value_of(final(self).votes@, (c2, k2)) == value_of(old(self).votes@, (c2, k2)),
            final(self).queue == old(self).queue,
            final(self).stopped == old(self).stopped,
            final(self).message_channel == old(self).message_channel,
    {
        match self.find_vote(channel, VoteType::Skip) {
            Some(i) => {
                proof {
                    lemma_remove_key(self.votes@, i as int);
                    assert forall|j: int| 0 <= j < self.votes@.remove(i as int).len() implies
                        (#[trigger] self.votes@.remove(i as int)[j]).1.wf() by {
                        if j < i {
                            assert(self.votes@.remove(i as int)[j] == self.votes@[j]);
                        } else {
                            assert(self.votes@.remove(i as int)[j] == self.votes@[j + 1]);
                        }
                    }
                }
                let _ = self.votes.remove(i);
            },
            None => {},
        }
        let ghost mid = *self;
        match self.find_vote(channel, VoteType::Stop) {
            Some(i) => {
                proof {
                    lemma_remove_key(self.votes@, i as int);
                    assert forall|j: int| 0 <= j < self.votes@.remove(i as int).len() implies
                        (#[trigger] self.votes@.remove(i as int)[j]).1.wf() by {
                        if j < i {
                            assert(self.votes@.remove(i as int)[j] == self.votes@[j]);
                        } else {
                            assert(self.votes@.remove(i as int)[j] == self.votes@[j + 1]);
                        }
                    }
                }
                let _ = self.votes.remove(i);
            },
            None => {},
        }
        proof {
            assert(!has_key(mid.votes@, (channel, VoteType::Skip)));
            assert(!has_key(self.votes@, (channel, VoteType::Stop)));
            assert(!has_key(self.votes@, (channel, VoteType::Skip)));
            assert forall|k: VoteType| !has_key(final(self).votes@, (channel, k)) by {
                match k {
                    VoteType::Skip => {},
                    VoteType::Stop => {},
                }
            }
        }
    }

    /// Asks for a new item for `channel` when one might need to start:
    /// returns AlreadyPlaying untouched while the channel has an active
    /// item, whatever is queued; otherwise selects fairly among present
    /// users, and on success clears the channel's stopped mark and voids
    /// its ballots.
    pub fn next_channel_entry(&mut self, snap: &VoiceSnapshot, channel: u64) -> (r: NextEntry<E>)
        requires
            old(self).wf(),
            snap.wf(),
        ensures
            final(self).wf(),
            snap.is_active(channel) <==> r is AlreadyPlaying,
            match r {
                NextEntry::AlreadyPlaying => *final(self) == *old(self),
                NextEntry::NoneAvailable => *final(self) == *old(self)
                    && (forall|u: u64| !old(self).eligible(*snap, channel, u)),
                NextEntry::Entry(e) => serves_next(*old(self), *final(self), *snap, channel, e),
            },
    {
        if snap.is_active_q(channel) {
            return NextEntry::AlreadyPlaying;
        }
        match self.queue.select_for(snap, channel) {
            None => NextEntry::NoneAvailable,
            Some(e) => {
                self.clear_stopped_mark(channel);
                self.clear_channel_votes(channel);
                NextEntry::Entry(e)
            },
        }
    }

    /// Asks for a new item after the active one in `channel` actually
    /// ended: the channel's ballots are voided either way, and when an
    /// entry comes back the stopped mark is cleared too.
    pub fn next_channel_entry_finished(
        &mut self,
        snap: &VoiceSnapshot,
        channel: u64,
    ) -> (r: Option<E>)
        requires
            old(self).wf(),
            snap.wf(),
        ensures
            final(self).wf(),
            forall|k: VoteType| final(self).ballots(channel, k) == Seq::<u64>::empty(),
            forall|c2: u64, k2: VoteType| c2 != channel ==>
                final(self).ballots(c2, k2) == old(self).ballots(c2, k2),
            final(self).msg_channel() == old(self).msg_channel(),
            match r {
                Option::None => {
                    &&& forall|u: u64| final(self).entries(u) == old(self).entries(u)
                    &&& final(self).cursor() == old(self).cursor()
                    &&& forall|c: u64| final(self).is_stopped(c) == old(self).is_stopped(c)
                    &&& forall|u: u64| !old(self).eligible(*snap, channel, u)
                },
                Option::Some(e) => serves_next(*old(self), *final(self), *snap, channel, e),
            },
    {
        self.clear_channel_votes(channel);
        match self.queue.select_for(snap, channel) {
            None => None,
            Some(e) => {
                self.clear_stopped_mark(channel);
                Some(e)
            },
        }
    }

    /// Implements "replace my latest request": swaps the user's most
    /// recently queued pending entry in place; failing that, when the
    /// user's item is the one active in `maybe_channel`, queues the new
    /// entry and tells the caller to cut the active item; failing both,
    /// queues the new entry as a fresh request.
    pub fn replace_entry(
        &mut self,
        snap: &VoiceSnapshot,
        user: u64,
        maybe_channel: Option<u64>,
        entry: E,
    ) -> (r: ReplaceStatus<E>)
        requires
            old(self).wf(),
            snap.wf(),
        ensures
            final(self).wf(),
            final(self).cursor() == old(self).cursor(),
            forall|c: u64| final(self).is_stopped(c) == old(self).is_stopped(c),
            forall|c: u64, k: VoteType| final(self).ballots(c, k) == old(self).ballots(c, k),
            final(self).msg_channel() == old(self).msg_channel(),
            forall|u: u64| u != user ==> final(self).entries(u) == old(self).entries(u),
            match r {
                ReplaceStatus::ReplacedInQueue(old_entry) => {
                    &&& old(self).entries(user).len() > 0
                    &&& old_entry == old(self).entries(user).last()
                    &&& final(self).entries(user) == old(self).entries(user)
                        .update(old(self).entries(user).len() - 1, entry)
                },
                ReplaceStatus::ReplacedCurrent(c) => {
                    &&& old(self).entries(user).len() == 0
                    &&& maybe_channel == Some(c)
                    &&& snap.active_user(c) == Some(user)
                    &&& final(self).entries(user) == old(self).entries(user).push(entry)
                },
                ReplaceStatus::Queued => {
                    &&& old(self).entries(user).len() == 0
                    &&& match maybe_channel {
                        Option::Some(c) => snap.active_user(c) != Some(user),
                        Option::None => true,
                    }
                    &&& final(self).entries(user) == old(self).entries(user).push(entry)
                },
            },
    {
        match self.queue.replace_latest(user, entry) {
            Ok(old_entry) => ReplaceStatus::ReplacedInQueue(old_entry),
            Err(entry_back) => {
                let current: Option<u64> = match maybe_channel {
                    Some(c) => match snap.active_user_q(c) {
                        Some(active_user) => if active_user == user {
                            Some(c)
                        } else {
                            None
                        },
                        None => None,
                    },
                    None => None,
                };
                self.queue.push(user, entry_back);
                match current {
                    Some(c) => ReplaceStatus::ReplacedCurrent(c),
                    None => ReplaceStatus::Queued,
                }
            },
        }
    }

    /// Casts `user`'s ballot of the given kind for `channel`: answers
    /// NothingPlaying untouched when the channel has no active item, and
    /// otherwise lets the channel's tracker decide under a majority
    /// threshold recomputed from current occupancy.
    pub fn vote_for_skip(
        &mut self,
        snap: &VoiceSnapshot,
        kind: VoteType,
        channel: u64,
        user: u64,
    ) -> (r: VoteStatus)
        requires
            old(self).wf(),
            snap.wf(),
        ensures
            final(self).wf(),
            !snap.is_active(channel) ==> r == VoteStatus::NothingPlaying
                && *final(self) == *old(self),
            snap.is_active(channel) ==> {
                &&& r == cast_result(
                    old(self).ballots(channel, kind),
                    majority(snap.occupants(channel)),
                    user,
                )
                &&& r != VoteStatus::NothingPlaying
                &&& final(self).ballots(channel, kind) == cast_ballots(
                    old(self).ballots(channel, kind),
                    majority(snap.occupants(channel)),
                    user,
                )
                &&& forall|c2: u64, k2: VoteType| !(c2 == channel && k2 == kind) ==>
                    final(self).ballots(c2, k2) == old(self).ballots(c2, k2)
                &&& forall|u: u64| final(self).entries(u) == old(self).entries(u)
                &&& final(self).cursor() == old(self).cursor()
                &&& forall|c: u64| final(self).is_stopped(c) == old(self).is_stopped(c)
                &&& final(self).msg_channel() == old(self).msg_channel()
            },
    {
        if !snap.is_active_q(channel) {
            return VoteStatus::NothingPlaying;
        }
        let occ = snap.occupancy(channel);
        let threshold = occ - occ / 2;
        proof {
            assert(threshold as int == majority(snap.occupants(channel)));
        }
        match self.find_vote(channel, kind) {
            Some(i) => {
                proof {
                    lemma_key_index(self.votes@, (channel, kind), i as int);
                }
                let (key, mut tracker) = self.votes.remove(i);
                let r = tracker.cast(user, threshold);
                let ghost pair_snap = (key, tracker);
                self.votes.insert(i, (key, tracker));
                proof {
                    lemma_remove_insert_is_update(old(self).votes@, i as int, pair_snap);
                    assert(self.votes@ =~= old(self).votes@.update(i as int, pair_snap));
                    lemma_update_value(old(self).votes@, i as int, pair_snap.1);
                    assert forall|j: int| 0 <= j < self.votes@.len() implies
                        (#[trigger] self.votes@[j]).1.wf() by {
                        if j != i {
                            assert(self.votes@[j] == old(self).votes@[j]);
                        }
                    }
                }
                r
            },
            None => {
                let mut tracker = VoteTracker::new();
                let r = tracker.cast(user, threshold);
                let ghost pair_snap = ((channel, kind), tracker);
                self.votes.push(((channel, kind), tracker));
                proof {
                    lemma_push_key(old(self).votes@, (channel, kind), pair_snap.1);
                    assert(self.votes@ =~= old(self).votes@.push(pair_snap));
                    assert forall|j: int| 0 <= j < self.votes@.len() implies
                        (#[trigger] self.votes@[j]).1.wf() by {
                        if j < old(self).votes@.len() {
                            assert(self.votes@[j] == old(self).votes@[j]);
                        }
                    }
                }
                r
            },
        }
    }

    /// The model's whole response to an ended notification for `channel`:
    /// remain idle when the channel was stopped by vote, otherwise hand
    /// out the next entry, or the signal that the channel finished with
    /// nothing left to play.
    pub fn playback_ended(&mut self, snap: &VoiceSnapshot, channel: u64) -> (r: EndedAction<E>)
        requires
            old(self).wf(),
            snap.wf(),
        ensures
            final(self).wf(),
            old(self).is_stopped(channel) ==> r is Halt && *final(self) == *old(self),
            !old(self).is_stopped(channel) ==> {
                &&& !(r is Halt)
                &&& forall|k: VoteType| final(self).ballots(channel, k) == Seq::<u64>::empty()
                &&& forall|c2: u64, k2: VoteType| c2 != channel ==>
                    final(self).ballots(c2, k2) == old(self).ballots(c2, k2)
                &&& final(self).msg_channel() == old(self).msg_channel()
                &&& match r {
                    EndedAction::Halt => false,
                    EndedAction::Idle => {
                        &&& forall|u: u64| final(self).entries(u) == old(self).entries(u)
                        &&& final(self).cursor() == old(self).cursor()
                        &&& forall|c: u64| final(self).is_stopped(c) == old(self).is_stopped(c)
                        &&& forall|u: u64| !old(self).eligible(*snap, channel, u)
                    },
                    EndedAction::Play(e) =>
                        serves_next(*old(self), *final(self), *snap, channel, e),
                }
            },
    {
        if self.is_channel_stopped(channel) {
            return EndedAction::Halt;
        }
        match self.next_channel_entry_finished(snap, channel) {
            Some(e) => EndedAction::Play(e),
            None => EndedAction::Idle,
        }
    }
}

} // verus!
