//! Per-user FIFOs of pending entries plus a round-robin cursor.
//!
//! Entries carry no channel association at push time: eligibility for a
//! voice channel is resolved lazily at selection time against a fresh
//! [`VoiceSnapshot`], because a user may change channels between queuing
//! and playing. Selection walks the users in a fixed, deterministic order,
//! starting just after the last-served user, and picks the first user who
//! both has a pending entry and occupies the target channel; this keeps
//! one prolific user from starving the others.

use vstd::prelude::*;

use crate::assoc::{distinct_keys, has_key, key_index, lemma_key_index, lemma_push_key,
    lemma_remove_insert_is_update, lemma_update_value, value_of};
use crate::snapshot::VoiceSnapshot;

verus! {

/// Per-user FIFOs of pending entries plus the round-robin cursor.
pub struct FairQueue<E> {
    /// One lane per user, in the order the users first queued something.
    lanes: Vec<(u64, Vec<E>)>,
    /// The user served last, if any; rotation starts just after it.
    last_served: Option<u64>,
}

impl<E> FairQueue<E> {
    /// Each user owns at most one lane, and the cursor names a user with a
    /// lane.
    pub closed spec fn wf(self) -> bool {
        &&& distinct_keys(self.lanes@)
        &&& match self.last_served {
            Option::None => true,
            Option::Some(u) => has_key(self.lanes@, u),
        }
    }

    /// The pending entries of `user`, oldest first.
    pub closed spec fn entries(self, user: u64) -> Seq<E> {
        if has_key(self.lanes@, user) {
            value_of(self.lanes@, user)@
        } else {
            Seq::<E>::empty()
        }
    }

    /// The user served last, if any.
    pub closed spec fn cursor(self) -> Option<u64> {
        self.last_served
    }

    /// How many users own a lane.
    closed spec fn user_count(self) -> int {
        self.lanes@.len() as int
    }

    /// `user` has a pending entry and occupies the target channel.
    pub open spec fn eligible(self, snap: VoiceSnapshot, channel: u64, user: u64) -> bool {
        self.entries(user).len() > 0 && snap.user_in_channel(user, channel)
    }

    /// Where the rotation starts: just past the last-served user's lane.
    closed spec fn start_index(self) -> int {
        match self.last_served {
            Option::None => 0,
            Option::Some(u) => key_index(self.lanes@, u) + 1,
        }
    }

    /// The lane index reached `k` steps into the rotation.
    closed spec fn slot(self, k: int) -> int {
        let s = self.start_index() + k;
        if s < self.user_count() {
            s
        } else {
            s - self.user_count()
        }
    }

    /// The user `k` steps into the rotation is eligible.
    closed spec fn slot_eligible(self, snap: VoiceSnapshot, channel: u64, k: int) -> bool {
        self.eligible(snap, channel, self.lanes@[self.slot(k)].0)
    }

    /// The first rotation step at or past `k` whose user is eligible, or
    /// -1 when none is.
    closed spec fn scan_from(self, snap: VoiceSnapshot, channel: u64, k: int) -> int
        decreases self.user_count() - k,
    {
        if k < 0 || k >= self.user_count() {
            -1
        } else if self.slot_eligible(snap, channel, k) {
            k
        } else {
            self.scan_from(snap, channel, k + 1)
        }
    }

    /// The rotation step of the user selection picks, or -1 when no user
    /// is eligible.
    closed spec fn choice(self, snap: VoiceSnapshot, channel: u64) -> int {
        self.scan_from(snap, channel, 0)
    }

    /// The user selection picks: the first eligible user in rotation
    /// order, starting just after the last-served user.
    pub closed spec fn selected_user(self, snap: VoiceSnapshot, channel: u64) -> Option<u64> {
        let k = self.choice(snap, channel);
        if k == -1 {
            None
        } else {
            Some(self.lanes@[self.slot(k)].0)
        }
    }

    proof fn lemma_scan_from_first(self, snap: VoiceSnapshot, channel: u64, m: int, k: int)
        requires
            0 <= m <= k < self.user_count(),
            self.slot_eligible(snap, channel, k),
            forall|j: int| m <= j < k ==> !self.slot_eligible(snap, channel, j),
        ensures
            self.scan_from(snap, channel, m) == k,
        decreases k - m,
    {
        if m < k {
            self.lemma_scan_from_first(snap, channel, m + 1, k);
        }
    }

    /// Selection picks step `k` exactly when `k` is eligible and no
    /// earlier step is.
    proof fn lemma_choice_is(self, snap: VoiceSnapshot, channel: u64, k: int)
        requires
            0 <= k < self.user_count(),
            self.slot_eligible(snap, channel, k),
            forall|j: int| 0 <= j < k ==> !self.slot_eligible(snap, channel, j),
        ensures
            self.choice(snap, channel) == k,
    {
        self.lemma_scan_from_first(snap, channel, 0, k);
    }

    proof fn lemma_scan_none(self, snap: VoiceSnapshot, channel: u64, m: int)
        requires
            forall|j: int| 0 <= j < self.user_count() ==> !self.slot_eligible(snap, channel, j),
        ensures
            self.scan_from(snap, channel, m) == -1,
        decreases self.user_count() - m,
    {
        if 0 <= m && m < self.user_count() {
            self.lemma_scan_none(snap, channel, m + 1);
        }
    }

    proof fn lemma_scan_props(self, snap: VoiceSnapshot, channel: u64, m: int)
        ensures
            self.scan_from(snap, channel, m) != -1 ==> {
                let k = self.scan_from(snap, channel, m);
                m <= k < self.user_count() && self.slot_eligible(snap, channel, k)
            },
        decreases self.user_count() - m,
    {
        if 0 <= m && m < self.user_count() && !self.slot_eligible(snap, channel, m) {
            self.lemma_scan_props(snap, channel, m + 1);
        }
    }

    /// When no rotation step is eligible, no user is.
    proof fn lemma_no_slot_eligible(self, snap: VoiceSnapshot, channel: u64)
        requires
            self.wf(),
            forall|j: int| 0 <= j < self.user_count() ==> !self.slot_eligible(snap, channel, j),
        ensures
            forall|u: u64| !self.eligible(snap, channel, u),
    {
        let n = self.user_count();
        assert forall|u: u64| !self.eligible(snap, channel, u) by {
            if self.eligible(snap, channel, u) {
                assert(has_key(self.lanes@, u));
                let i = key_index(self.lanes@, u);
                assert(0 <= i < n && self.lanes@[i].0 == u);
                let st = self.start_index();
                assert(0 <= st <= n) by {
                    match self.last_served {
                        Option::None => {},
                        Option::Some(w) => {
                            let iw = key_index(self.lanes@, w);
                            assert(0 <= iw < n && self.lanes@[iw].0 == w);
                        },
                    }
                }
                let k = if i >= st { i - st } else { i + n - st };
                assert(0 <= k < n);
                assert(self.slot(k) == i);
                assert(self.slot_eligible(snap, channel, k));
                assert(false);
            }
        }
    }

    /// A user absent from the channel is never the one selected for it,
    /// whatever it has queued.
    pub proof fn lemma_absent_user_not_selected(
        self,
        snap: VoiceSnapshot,
        channel: u64,
        user: u64,
    )
        requires
            self.wf(),
            !snap.user_in_channel(user, channel),
        ensures
            self.selected_user(snap, channel) != Some(user),
    {
        self.lemma_scan_props(snap, channel, 0);
    }

    /// Round-robin fairness for two users: when `a` and `b` are the only
    /// eligible users and `a` was served last, the next selection picks
    /// `b`; ineligible users between them are skipped without disturbing
    /// the rotation.
    pub proof fn lemma_two_user_alternation(
        self,
        snap: VoiceSnapshot,
        channel: u64,
        a: u64,
        b: u64,
    )
        requires
            self.wf(),
            a != b,
            self.eligible(snap, channel, a),
            self.eligible(snap, channel, b),
            forall|u: u64| self.eligible(snap, channel, u) ==> u == a || u == b,
            self.cursor() == Some(a),
        ensures
            self.selected_user(snap, channel) == Some(b),
    {
        let n = self.user_count();
        assert(has_key(self.lanes@, a));
        assert(has_key(self.lanes@, b));
        let ia = key_index(self.lanes@, a);
        let ib = key_index(self.lanes@, b);
        assert(0 <= ia < n && self.lanes@[ia].0 == a);
        assert(0 <= ib < n && self.lanes@[ib].0 == b);
        assert(ia != ib);
        let st = ia + 1;
        assert(self.start_index() == st);
        let kb = if ib >= st { ib - st } else { ib + n - st };
        assert(0 <= kb <= n - 2);
        assert(self.slot(kb) == ib);
        assert(self.slot_eligible(snap, channel, kb));
        assert forall|j: int| 0 <= j < kb implies !self.slot_eligible(snap, channel, j) by {
            let p = self.slot(j);
            assert(0 <= p < n);
            assert(p != ia) by {
                if p == ia {
                    assert(st + j == ia + n);
                    assert(j == n - 1);
                }
            }
            assert(p != ib) by {
                if p == ib {
                    assert(self.slot(j) == self.slot(kb));
                }
            }
            let w = self.lanes@[p].0;
            assert(w != a) by {
                if w == a {
                    assert(self.lanes@[p].0 == self.lanes@[ia].0);
                }
            }
            assert(w != b) by {
                if w == b {
                    assert(self.lanes@[p].0 == self.lanes@[ib].0);
                }
            }
            assert(!self.eligible(snap, channel, w));
        }
        self.lemma_choice_is(snap, channel, kb);
    }

    /// An empty queue: no user has a lane, no user was served.
    pub fn new() -> (r: Self)
        ensures
            r.wf(),
            forall|u: u64| r.entries(u) == Seq::<E>::empty(),
            r.cursor() == Option::<u64>::None,
    {
        let r = FairQueue { lanes: Vec::new(), last_served: None };
        proof {
            assert forall|u: u64| r.entries(u) == Seq::<E>::empty() by {
                assert(!has_key(r.lanes@, u));
            }
        }
        r
    }

    /// The index of `user`'s lane, if it owns one.
    fn find_lane(&self, user: u64) -> (r: Option<usize>)
        ensures
            match r {
                Some(i) => i < self.lanes@.len() && self.lanes@[i as int].0 == user,
                None => !has_key(self.lanes@, user),
            },
    {
        let n = self.lanes.len();
        let mut i: usize = 0;
        #[verifier::loop_isolation(false)]
        while i < n
            invariant
                i <= n,
                forall|j: int| 0 <= j < i ==> self.lanes@[j].0 != user,
            decreases n - i,
        {
            if self.lanes[i].0 == user {
                return Some(i);
            }
            i = i + 1;
        }
        None
    }

    /// Appends `entry` to `user`'s FIFO. No channel association is
    /// recorded: eligibility is resolved at selection time.
    pub fn push(&mut self, user: u64, entry: E)
        requires
            old(self).wf(),
        ensures
            final(self).wf(),
            final(self).entries(user) == old(self).entries(user).push(entry),
            forall|u: u64| u != user ==> final(self).entries(u) == old(self).entries(u),
            final(self).cursor() == old(self).cursor(),
    {
        let ghost entry_snap = entry;
        match self.find_lane(user) {
            Some(i) => {
                proof {
                    lemma_key_index(self.lanes@, user, i as int);
                }
                let (u2, mut fifo) = self.lanes.remove(i);
                fifo.push(entry);
                let ghost pair_snap = (u2, fifo);
                self.lanes.insert(i, (u2, fifo));
                proof {
                    lemma_remove_insert_is_update(old(self).lanes@, i as int, pair_snap);
                    assert(self.lanes@ =~= old(self).lanes@.update(i as int, pair_snap));
                    lemma_update_value(old(self).lanes@, i as int, pair_snap.1);
                    assert(final(self).entries(user) =~= old(self).entries(user).push(entry_snap));
                    assert forall|u: u64| u != user implies
                        final(self).entries(u) == old(self).entries(u) by {}
                }
            },
            None => {
                let mut fifo: Vec<E> = Vec::new();
                fifo.push(entry);
                let ghost pair_snap = (user, fifo);
                self.lanes.push((user, fifo));
                proof {
                    lemma_push_key(old(self).lanes@, user, pair_snap.1);
                    assert(final(self).entries(user) =~= old(self).entries(user).push(entry_snap));
                    assert forall|u: u64| u != user implies
                        final(self).entries(u) == old(self).entries(u) by {}
                    match self.last_served {
                        Option::None => {},
                        Option::Some(w) => {
                            assert(w != user);
                        },
                    }
                }
            },
        }
    }

    /// A reference to the entry `user` queued most recently, if any is
    /// still pending.
    pub fn peek_latest(&self, user: u64) -> (r: Option<&E>)
        requires
            self.wf(),
        ensures
            match r {
                Some(e) => self.entries(user).len() > 0 && *e == self.entries(user).last(),
                None => self.entries(user).len() == 0,
            },
    {
        match self.find_lane(user) {
            Some(i) => {
                proof {
                    lemma_key_index(self.lanes@, user, i as int);
                }
                let fifo = &self.lanes[i].1;
                if fifo.len() > 0 {
                    Some(&fifo[fifo.len() - 1])
                } else {
                    None
                }
            },
            None => None,
        }
    }

    /// Swaps the entry `user` queued most recently for `entry`, in place,
    /// preserving its queue position; returns the swapped-out entry, or
    /// hands `entry` back untouched when `user` has nothing pending.
    pub fn replace_latest(&mut self, user: u64, entry: E) -> (r: Result<E, E>)
        requires
            old(self).wf(),
        ensures
            final(self).wf(),
            final(self).cursor() == old(self).cursor(),
            match r {
                Ok(old_entry) => {
                    &&& old(self).entries(user).len() > 0
                    &&& old_entry == old(self).entries(user).last()
                    &&& final(self).entries(user) == old(self).entries(user)
                        .update(old(self).entries(user).len() - 1, entry)
                    &&& forall|u: u64| u != user ==> final(self).entries(u) == old(self).entries(u)
                },
                Err(back) => {
                    &&& old(self).entries(user).len() == 0
                    &&& back == entry
                    &&& *final(self) == *old(self)
                },
            },
    {
        let ghost entry_snap = entry;
        match self.find_lane(user) {
            Some(i) => {
                proof {
                    lemma_key_index(self.lanes@, user, i as int);
                }
                let fifo_len = self.lanes[i].1.len();
                if fifo_len == 0 {
                    return Err(entry);
                }
                let (u2, mut fifo) = self.lanes.remove(i);
                let old_entry = fifo.remove(fifo_len - 1);
                fifo.push(entry);
                let ghost pair_snap = (u2, fifo);
                self.lanes.insert(i, (u2, fifo));
                proof {
                    lemma_remove_insert_is_update(old(self).lanes@, i as int, pair_snap);
                    assert(self.lanes@ =~= old(self).lanes@.update(i as int, pair_snap));
                    lemma_update_value(old(self).lanes@, i as int, pair_snap.1);
                    assert(final(self).entries(user) =~= old(self).entries(user)
                        .update(old(self).entries(user).len() - 1, entry_snap));
                    assert forall|u: u64| u != user implies
                        final(self).entries(u) == old(self).entries(u) by {}
                }
                Ok(old_entry)
            },
            None => Err(entry),
        }
    }

    /// Selects the next entry to play in `channel`: the head of the FIFO
    /// of the first eligible user in rotation order, who becomes the
    /// last-served user; `None`, with nothing changed, when no user with a
    /// pending entry occupies the channel.
    pub fn select_for(&mut self, snap: &VoiceSnapshot, channel: u64) -> (r: Option<E>)
        requires
            old(self).wf(),
            snap.wf(),
        ensures
            final(self).wf(),
            match r {
                Option::None => {
                    &&& *final(self) == *old(self)
                    &&& old(self).selected_user(*snap, channel) is None
                    &&& forall|u: u64| !old(self).eligible(*snap, channel, u)
                },
                Option::Some(e) => match old(self).selected_user(*snap, channel) {
                    Option::Some(u) => {
                        &&& old(self).eligible(*snap, channel, u)
                        &&& snap.user_in_channel(u, channel)
                        &&& old(self).entries(u).len() > 0
                        &&& e == old(self).entries(u)[0]
                        &&& final(self).entries(u) == old(self).entries(u).skip(1)
                        &&& forall|v: u64| v != u ==>
                            final(self).entries(v) == old(self).entries(v)
                        &&& final(self).cursor() == Some(u)
                    },
                    Option::None => false,
                },
            },
    {
        let n = self.lanes.len();
        if n == 0 {
            proof {
                self.lemma_no_slot_eligible(*snap, channel);
                self.lemma_scan_none(*snap, channel, 0);
            }
            return None;
        }
        let start: usize = match self.last_served {
            Option::None => 0,
            Option::Some(u) => match self.find_lane(u) {
                Option::Some(i) => {
                    proof {
                        lemma_key_index(self.lanes@, u, i as int);
                    }
                    i + 1
                },
                Option::None => {
                    proof {
                        assert(false);
                    }
                    0
                },
            },
        };
        assert(start as int == self.start_index());
        assert(start <= n);
        let ghost q0 = *self;
        let mut k: usize = 0;
        #[verifier::loop_isolation(false)]
        while k < n
            invariant
                *self == q0,
                k <= n,
                forall|j: int| 0 <= j < k ==> !q0.slot_eligible(*snap, channel, j),
            decreases n - k,
        {
            let pos: usize = if k < n - start {
                start + k
            } else {
                k - (n - start)
            };
            assert(pos as int == q0.slot(k as int));
            assert(pos < n);
            let lane_user = self.lanes[pos].0;
            proof {
                lemma_key_index(self.lanes@, lane_user, pos as int);
            }
            let lane_len = self.lanes[pos].1.len();
            if lane_len > 0 && snap.user_in_channel_q(lane_user, channel) {
                proof {
                    assert(q0.slot_eligible(*snap, channel, k as int));
                    q0.lemma_choice_is(*snap, channel, k as int);
                    assert(q0.selected_user(*snap, channel) == Some(lane_user));
                }
                let (u2, mut fifo) = self.lanes.remove(pos);
                let e = fifo.remove(0);
                let ghost pair_snap = (u2, fifo);
                self.lanes.insert(pos, (u2, fifo));
                self.last_served = Some(u2);
                proof {
                    lemma_remove_insert_is_update(q0.lanes@, pos as int, pair_snap);
                    assert(self.lanes@ =~= q0.lanes@.update(pos as int, pair_snap));
                    lemma_update_value(q0.lanes@, pos as int, pair_snap.1);
                    assert(final(self).entries(u2) =~= q0.entries(u2).skip(1));
                    assert forall|v: u64| v != u2 implies
                        final(self).entries(v) == q0.entries(v) by {}
                }
                return Some(e);
            }
            proof {
                assert(!q0.slot_eligible(*snap, channel, k as int));
            }
            k = k + 1;
        }
        proof {
            q0.lemma_no_slot_eligible(*snap, channel);
            q0.lemma_scan_none(*snap, channel, 0);
        }
        None
    }
}

} // verus!
