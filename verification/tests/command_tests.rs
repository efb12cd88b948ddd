use mrvn_model::{
    DesyncFault, GuildModel, PauseAction, QueuePlayAction, SkipAction, StopAction,
    UnpauseAction, VoiceSnapshot, VoteStatus,
};
use mrvn_model::commands::{
    pause_action, queue_play_followup, skip_followup, stop_followup, unpause_action,
};

const CH: u64 = 10;

#[test]
fn skip_followup_maps_every_outcome() {
    assert_eq!(
        skip_followup(VoteStatus::Success, true),
        Ok(SkipAction::CutPlayback)
    );
    assert_eq!(
        skip_followup(VoteStatus::AlreadyVoted, true),
        Ok(SkipAction::AlreadyVotedNotice)
    );
    assert_eq!(
        skip_followup(VoteStatus::NeedsMoreVotes(2), true),
        Ok(SkipAction::MoreVotesNeeded(2))
    );
    assert_eq!(
        skip_followup(VoteStatus::NothingPlaying, false),
        Ok(SkipAction::NothingPlayingNotice)
    );
    // The model counted a ballot but the speaker holds nothing: desync.
    assert_eq!(
        skip_followup(VoteStatus::Success, false),
        Err(DesyncFault::ModelActiveSpeakerIdle)
    );
    assert_eq!(
        skip_followup(VoteStatus::NeedsMoreVotes(1), false),
        Err(DesyncFault::ModelActiveSpeakerIdle)
    );
}

#[test]
fn stop_followup_marks_channel_stopped_only_on_fired_vote() {
    let mut model: GuildModel<u64> = GuildModel::new();
    assert_eq!(
        stop_followup(&mut model, CH, VoteStatus::NeedsMoreVotes(1), true),
        Ok(StopAction::MoreVotesNeeded(1))
    );
    assert!(!model.is_channel_stopped(CH));
    assert_eq!(
        stop_followup(&mut model, CH, VoteStatus::AlreadyVoted, true),
        Ok(StopAction::AlreadyVotedNotice)
    );
    assert_eq!(
        stop_followup(&mut model, CH, VoteStatus::NothingPlaying, false),
        Ok(StopAction::NothingPlayingNotice)
    );
    assert!(!model.is_channel_stopped(CH));
    assert_eq!(
        stop_followup(&mut model, CH, VoteStatus::Success, false),
        Err(DesyncFault::ModelActiveSpeakerIdle)
    );
    assert!(!model.is_channel_stopped(CH));
    assert_eq!(
        stop_followup(&mut model, CH, VoteStatus::Success, true),
        Ok(StopAction::CutPlayback)
    );
    assert!(model.is_channel_stopped(CH));
}

#[test]
fn pause_action_pauses_only_active_unpaused_playback() {
    assert_eq!(pause_action(Some(false)), PauseAction::Pause);
    assert_eq!(pause_action(Some(true)), PauseAction::NothingPlayingNotice);
    assert_eq!(pause_action(None), PauseAction::NothingPlayingNotice);
}

#[test]
fn unpause_action_resumes_or_starts_fresh() {
    assert_eq!(unpause_action(Some(true), false), UnpauseAction::Unpause);
    assert_eq!(
        unpause_action(Some(false), true),
        UnpauseAction::AlreadyPlayingNotice
    );
    assert_eq!(unpause_action(None, false), UnpauseAction::NoSpeakerNotice);
    assert_eq!(unpause_action(None, true), UnpauseAction::StartNext);
}

#[test]
fn queue_play_keeps_entry_queued_while_user_is_absent() {
    let mut model: GuildModel<u64> = GuildModel::new();
    let snap = VoiceSnapshot::new();
    model.push_entry(1, 101);
    assert!(matches!(
        queue_play_followup(&mut model, &snap, 1, true),
        QueuePlayAction::KeptQueued
    ));
}

#[test]
fn queue_play_keeps_entry_queued_without_a_speaker() {
    let mut model: GuildModel<u64> = GuildModel::new();
    let mut snap = VoiceSnapshot::new();
    snap.join(1, CH);
    model.push_entry(1, 101);
    assert!(matches!(
        queue_play_followup(&mut model, &snap, 1, false),
        QueuePlayAction::KeptQueuedNoSpeaker
    ));
}

#[test]
fn queue_play_keeps_entry_queued_while_channel_plays() {
    let mut model: GuildModel<u64> = GuildModel::new();
    let mut snap = VoiceSnapshot::new();
    snap.join(1, CH);
    snap.set_active(CH, 2);
    model.push_entry(1, 101);
    assert!(matches!(
        queue_play_followup(&mut model, &snap, 1, true),
        QueuePlayAction::KeptQueued
    ));
}

#[test]
fn queue_play_starts_first_eligible_entry() {
    let mut model: GuildModel<u64> = GuildModel::new();
    let mut snap = VoiceSnapshot::new();
    snap.join(1, CH);
    model.push_entry(1, 101);
    match queue_play_followup(&mut model, &snap, 1, true) {
        QueuePlayAction::Play(c, e) => {
            assert_eq!(c, CH);
            assert_eq!(e, 101);
        },
        _ => panic!("expected Play"),
    }
}

#[test]
fn queue_play_may_start_an_older_entry_of_another_user() {
    let mut model: GuildModel<u64> = GuildModel::new();
    let mut snap = VoiceSnapshot::new();
    snap.join(1, CH);
    snap.join(2, CH);
    model.push_entry(1, 101);
    // User 2 queues while nothing plays: user 1's older entry starts.
    model.push_entry(2, 201);
    match queue_play_followup(&mut model, &snap, 2, true) {
        QueuePlayAction::Play(c, e) => {
            assert_eq!(c, CH);
            assert_eq!(e, 101);
        },
        _ => panic!("expected Play"),
    }
}
