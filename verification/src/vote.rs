//! Per-channel, per-kind ballot box with a majority threshold rule.
//!
//! A [`VoteTracker`] records which users have cast a ballot for one
//! (channel, vote kind) pair. The threshold is recomputed against current
//! channel occupancy on every cast, so occupancy changes between casts are
//! honored immediately. Reaching the threshold clears the tracker.

use vstd::prelude::*;

use crate::assoc::distinct;

verus! {

/// Outcome of casting one ballot, reported back to the command layer.
#[derive(Clone, Copy, PartialEq, Eq, Structural, Debug)]
pub enum VoteStatus {
    /// The ballot met the threshold; the vote fires and the box resets.
    Success,
    /// The caster had already voted for this channel and kind.
    AlreadyVoted,
    /// The ballot was recorded; this many more distinct ballots are needed.
    NeedsMoreVotes(usize),
    /// Nothing is active in the channel, so there is nothing to vote on.
    NothingPlaying,
}

/// The kind of collective vote. Different kinds for the same channel never
/// interact.
#[derive(Clone, Copy, PartialEq, Eq, Structural, Debug)]
pub enum VoteType {
    Skip,
    Stop,
}

/// The majority threshold for a channel occupied by `n` users: half of
/// them, rounded up.
pub open spec fn majority(n: int) -> int {
    n - n / 2
}

/// What one cast returns, given the ballots already recorded, the
/// threshold in force, and the caster.
pub open spec fn cast_result(ballots: Seq<u64>, threshold: int, user: u64) -> VoteStatus {
    if ballots.contains(user) {
        VoteStatus::AlreadyVoted
    } else if ballots.len() + 1 >= threshold {
        VoteStatus::Success
    } else {
        VoteStatus::NeedsMoreVotes((threshold - ballots.len() - 1) as usize)
    }
}

/// The ballots left after one cast: unchanged on a repeat ballot, cleared
/// when the threshold is met, extended by the caster otherwise.
pub open spec fn cast_ballots(ballots: Seq<u64>, threshold: int, user: u64) -> Seq<u64> {
    if ballots.contains(user) {
        ballots
    } else if ballots.len() + 1 >= threshold {
        Seq::empty()
    } else {
        ballots.push(user)
    }
}

/// Ballot box for one (channel, vote kind) pair.
pub struct VoteTracker {
    voters: Vec<u64>,
}

impl VoteTracker {
    /// No user is recorded twice.
    pub closed spec fn wf(self) -> bool {
        distinct(self.voters@)
    }

    /// The ballots recorded so far, in casting order.
    pub closed spec fn ballots(self) -> Seq<u64> {
        self.voters@
    }

    /// An empty ballot box.
    pub fn new() -> (r: Self)
        ensures
            r.wf(),
            r.ballots() == Seq::<u64>::empty(),
    {
        VoteTracker { voters: Vec::new() }
    }

    /// Casts `user`'s ballot under the given threshold: a repeat ballot is
    /// rejected, a ballot that meets the threshold fires and clears the
    /// box, and any other ballot is recorded with the remaining count.
    pub fn cast(&mut self, user: u64, threshold: usize) -> (r: VoteStatus)
        requires
            old(self).wf(),
        ensures
            final(self).wf(),
            r == cast_result(old(self).ballots(), threshold as int, user),
            final(self).ballots() == cast_ballots(old(self).ballots(), threshold as int, user),
            r != VoteStatus::NothingPlaying,
    {
        let n = self.voters.len();
        let mut i: usize = 0;
        #[verifier::loop_isolation(false)]
        while i < n
            invariant
                i <= n,
                forall|j: int| 0 <= j < i ==> self.voters@[j] != user,
            decreases n - i,
        {
            if self.voters[i] == user {
                return VoteStatus::AlreadyVoted;
            }
            i = i + 1;
        }
        assert(!self.voters@.contains(user));
        if self.voters.len() >= threshold || self.voters.len() + 1 == threshold {
            self.voters.clear();
            VoteStatus::Success
        } else {
            self.voters.push(user);
            VoteStatus::NeedsMoreVotes(threshold - self.voters.len())
        }
    }
}

/// The ballots standing after the users of `users` have cast in order into
/// an initially empty box, all under the same threshold.
pub open spec fn ballots_after(users: Seq<u64>, threshold: int) -> Seq<u64>
    decreases users.len(),
{
    if users.len() == 0 {
        Seq::empty()
    } else {
        cast_ballots(ballots_after(users.drop_last(), threshold), threshold, users.last())
    }
}

/// While fewer ballots than the threshold have been cast by distinct fresh
/// users, the box holds exactly those ballots.
proof fn lemma_ballots_partial(users: Seq<u64>, threshold: int)
    requires
        distinct(users),
        users.len() < threshold,
    ensures
        ballots_after(users, threshold) =~= users,
    decreases users.len(),
{
    if users.len() > 0 {
        lemma_ballots_partial(users.drop_last(), threshold);
        assert(!users.drop_last().contains(users.last())) by {
            if users.drop_last().contains(users.last()) {
                let i = choose|i: int|
                    0 <= i < users.drop_last().len() && users.drop_last()[i] == users.last();
                assert(users[i] == users[users.len() - 1]);
            }
        }
    }
}

/// Vote threshold monotonicity: when `threshold` distinct users cast one
/// at a time into an empty box, every cast but the last is answered
/// NeedsMoreVotes with the exact remaining count, the last cast fires, and
/// the box then stands empty again, so a following cycle starts from zero
/// ballots.
pub proof fn lemma_vote_cycle(users: Seq<u64>, threshold: int, i: int)
    requires
        distinct(users),
        users.len() == threshold,
        1 <= threshold,
        0 <= i < threshold,
    ensures
        i < threshold - 1 ==> cast_result(ballots_after(users.take(i), threshold), threshold, users[i])
            == VoteStatus::NeedsMoreVotes((threshold - 1 - i) as usize),
        i == threshold - 1 ==> cast_result(ballots_after(users.take(i), threshold), threshold, users[i])
            == VoteStatus::Success,
        ballots_after(users.take(i + 1), threshold)
            == cast_ballots(ballots_after(users.take(i), threshold), threshold, users[i]),
        ballots_after(users, threshold) =~= Seq::<u64>::empty(),
{
    assert(distinct(users.take(i)));
    lemma_ballots_partial(users.take(i), threshold);
    assert(!users.take(i).contains(users[i])) by {
        if users.take(i).contains(users[i]) {
            let j = choose|j: int| 0 <= j < i && users.take(i)[j] == users[i];
            assert(users[j] == users[i]);
        }
    }
    assert(users.take(i + 1).drop_last() =~= users.take(i));
    assert(users.take(i + 1).last() == users[i]);
    // The full cycle ends empty: the last cast meets the threshold.
    assert(distinct(users.take(threshold - 1)));
    lemma_ballots_partial(users.take(threshold - 1), threshold);
    assert(users.take(threshold) =~= users);
    assert(users.drop_last() =~= users.take(threshold - 1));
    assert(!users.take(threshold - 1).contains(users.last())) by {
        if users.take(threshold - 1).contains(users.last()) {
            let j = choose|j: int|
                0 <= j < threshold - 1 && #[trigger] users.take(threshold - 1)[j] == users.last();
            assert(users[j] == users[users.len() - 1]);
        }
    }
}

} // verus!
