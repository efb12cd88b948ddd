use mrvn_model::{GuildModel, VoiceSnapshot, VoteStatus, VoteTracker, VoteType};

const CH: u64 = 10;

#[test]
fn majority_cycle_counts_down_then_fires() {
    let mut tracker = VoteTracker::new();
    assert_eq!(tracker.cast(1, 3), VoteStatus::NeedsMoreVotes(2));
    assert_eq!(tracker.cast(2, 3), VoteStatus::NeedsMoreVotes(1));
    assert_eq!(tracker.cast(3, 3), VoteStatus::Success);
    // A second cycle starts from zero ballots.
    assert_eq!(tracker.cast(1, 3), VoteStatus::NeedsMoreVotes(2));
}

#[test]
fn repeat_ballot_is_rejected_without_side_effect() {
    let mut tracker = VoteTracker::new();
    assert_eq!(tracker.cast(1, 3), VoteStatus::NeedsMoreVotes(2));
    assert_eq!(tracker.cast(1, 3), VoteStatus::AlreadyVoted);
    assert_eq!(tracker.cast(1, 3), VoteStatus::AlreadyVoted);
    // Still only one ballot recorded.
    assert_eq!(tracker.cast(2, 3), VoteStatus::NeedsMoreVotes(1));
}

#[test]
fn threshold_one_fires_immediately() {
    let mut tracker = VoteTracker::new();
    assert_eq!(tracker.cast(1, 1), VoteStatus::Success);
    assert_eq!(tracker.cast(1, 1), VoteStatus::Success);
}

#[test]
fn vote_needs_majority_of_present_users() {
    let mut model: GuildModel<u64> = GuildModel::new();
    let mut snap = VoiceSnapshot::new();
    snap.join(1, CH);
    snap.join(2, CH);
    snap.join(3, CH);
    snap.set_active(CH, 1);
    // Three present users: majority is two.
    assert_eq!(
        model.vote_for_skip(&snap, VoteType::Skip, CH, 1),
        VoteStatus::NeedsMoreVotes(1)
    );
    assert_eq!(
        model.vote_for_skip(&snap, VoteType::Skip, CH, 1),
        VoteStatus::AlreadyVoted
    );
    assert_eq!(
        model.vote_for_skip(&snap, VoteType::Skip, CH, 2),
        VoteStatus::Success
    );
}

#[test]
fn vote_without_active_item_touches_nothing() {
    let mut model: GuildModel<u64> = GuildModel::new();
    let mut snap = VoiceSnapshot::new();
    snap.join(1, CH);
    assert_eq!(
        model.vote_for_skip(&snap, VoteType::Skip, CH, 1),
        VoteStatus::NothingPlaying
    );
    // Nothing was recorded: once active, the count starts fresh.
    snap.set_active(CH, 1);
    snap.join(2, CH);
    snap.join(3, CH);
    assert_eq!(
        model.vote_for_skip(&snap, VoteType::Skip, CH, 1),
        VoteStatus::NeedsMoreVotes(1)
    );
}

#[test]
fn threshold_follows_occupancy_changes_between_casts() {
    let mut model: GuildModel<u64> = GuildModel::new();
    let mut snap = VoiceSnapshot::new();
    for u in 1..=5u64 {
        snap.join(u, CH);
    }
    snap.set_active(CH, 1);
    // Five present users: majority is three.
    assert_eq!(
        model.vote_for_skip(&snap, VoteType::Skip, CH, 1),
        VoteStatus::NeedsMoreVotes(2)
    );
    // Two listeners leave: three remain, majority is two.
    snap.leave(4);
    snap.leave(5);
    assert_eq!(
        model.vote_for_skip(&snap, VoteType::Skip, CH, 2),
        VoteStatus::Success
    );
}

#[test]
fn vote_kinds_never_interact() {
    let mut model: GuildModel<u64> = GuildModel::new();
    let mut snap = VoiceSnapshot::new();
    snap.join(1, CH);
    snap.join(2, CH);
    snap.join(3, CH);
    snap.set_active(CH, 1);
    assert_eq!(
        model.vote_for_skip(&snap, VoteType::Skip, CH, 1),
        VoteStatus::NeedsMoreVotes(1)
    );
    // The same user's stop ballot is counted separately.
    assert_eq!(
        model.vote_for_skip(&snap, VoteType::Stop, CH, 1),
        VoteStatus::NeedsMoreVotes(1)
    );
    assert_eq!(
        model.vote_for_skip(&snap, VoteType::Stop, CH, 2),
        VoteStatus::Success
    );
    // The skip tally is untouched by the stop vote firing.
    assert_eq!(
        model.vote_for_skip(&snap, VoteType::Skip, CH, 1),
        VoteStatus::AlreadyVoted
    );
}
