//! The decisions of the command layer, separated from the transport.
//!
//! Each command handler reads the speaker and presence components, hands
//! their answers in as plain values, and receives back which model
//! mutation happened and which abstract message to post. The handlers
//! themselves only perform the outside calls these decisions ask for:
//! play, pause, unpause or stop the speaker, or post a message.

use vstd::prelude::*;

use crate::guild_model::{serves_next, GuildModel, NextEntry};
use crate::snapshot::VoiceSnapshot;
use crate::vote::{VoteStatus, VoteType};

verus! {

/// A desync fault: the model answered as if an item were active, but the
/// speaker component reports no active session in the channel. This is a
/// programming-logic invariant violation, surfaced loudly to the caller,
/// never silently reconciled.
#[derive(Clone, Copy, PartialEq, Eq, Structural, Debug)]
pub enum DesyncFault {
    ModelActiveSpeakerIdle,
}

/// What to do after a skip ballot was cast.
#[derive(Clone, Copy, PartialEq, Eq, Structural, Debug)]
pub enum SkipAction {
    /// The vote fired: cut the channel's active playback.
    CutPlayback,
    /// Tell the caster their ballot was already counted.
    AlreadyVotedNotice,
    /// Tell the channel how many more ballots are needed.
    MoreVotesNeeded(usize),
    /// Tell the caster nothing is playing in their channel.
    NothingPlayingNotice,
}

/// Decides the follow-up of a skip command from the ballot outcome and
/// whether the speaker component has an active session in the channel: a
/// fired vote cuts playback, and a ballot cast for a channel the speaker
/// holds nothing in is a desync fault.
pub fn skip_followup(status: VoteStatus, speaker_active: bool) -> (r: Result<
    SkipAction,
    DesyncFault,
>)
    ensures
        match r {
            Ok(SkipAction::CutPlayback) => status == VoteStatus::Success && speaker_active,
            Ok(SkipAction::AlreadyVotedNotice) => status == VoteStatus::AlreadyVoted
                && speaker_active,
            Ok(SkipAction::MoreVotesNeeded(n)) => status == VoteStatus::NeedsMoreVotes(n)
                && speaker_active,
            Ok(SkipAction::NothingPlayingNotice) => status == VoteStatus::NothingPlaying,
            Err(_) => status != VoteStatus::NothingPlaying && !speaker_active,
        },
{
    match status {
        VoteStatus::NothingPlaying => Ok(SkipAction::NothingPlayingNotice),
        VoteStatus::Success => if speaker_active {
            Ok(SkipAction::CutPlayback)
        } else {
            Err(DesyncFault::ModelActiveSpeakerIdle)
        },
        VoteStatus::AlreadyVoted => if speaker_active {
            Ok(SkipAction::AlreadyVotedNotice)
        } else {
            Err(DesyncFault::ModelActiveSpeakerIdle)
        },
        VoteStatus::NeedsMoreVotes(n) => if speaker_active {
            Ok(SkipAction::MoreVotesNeeded(n))
        } else {
            Err(DesyncFault::ModelActiveSpeakerIdle)
        },
    }
}

/// What to do after a stop ballot was cast.
#[derive(Clone, Copy, PartialEq, Eq, Structural, Debug)]
pub enum StopAction {
    /// The vote fired: the channel is now marked stopped, cut playback.
    CutPlayback,
    /// Tell the caster their ballot was already counted.
    AlreadyVotedNotice,
    /// Tell the channel how many more ballots are needed.
    MoreVotesNeeded(usize),
    /// Tell the caster nothing is playing in their channel.
    NothingPlayingNotice,
}

/// Decides the follow-up of a stop command: when the vote fired and the
/// speaker is active, the channel is marked stopped (so the coming ended
/// notification will not auto-advance) and playback is cut; a fired vote
/// with an idle speaker is a desync fault; anything else posts a notice
/// and leaves the model untouched.
pub fn stop_followup<E>(
    model: &mut GuildModel<E>,
    channel: u64,
    status: VoteStatus,
    speaker_active: bool,
) -> (r: Result<StopAction, DesyncFault>)
    requires
        old(model).wf(),
    ensures
        final(model).wf(),
        match r {
            Ok(StopAction::CutPlayback) => {
                &&& status == VoteStatus::Success && speaker_active
                &&& final(model).is_stopped(channel)
                &&& forall|c: u64| c != channel ==>
                    final(model).is_stopped(c) == old(model).is_stopped(c)
                &&& forall|u: u64| final(model).entries(u) == old(model).entries(u)
                &&& final(model).cursor() == old(model).cursor()
                &&& forall|c: u64, k: VoteType|
                    final(model).ballots(c, k) == old(model).ballots(c, k)
                &&& final(model).msg_channel() == old(model).msg_channel()
            },
            Ok(StopAction::AlreadyVotedNotice) => status == VoteStatus::AlreadyVoted
                && *final(model) == *old(model),
            Ok(StopAction::MoreVotesNeeded(n)) => status == VoteStatus::NeedsMoreVotes(n)
                && *final(model) == *old(model),
            Ok(StopAction::NothingPlayingNotice) => status == VoteStatus::NothingPlaying
                && *final(model) == *old(model),
            Err(_) => status == VoteStatus::Success && !speaker_active
                && *final(model) == *old(model),
        },
{
    match status {
        VoteStatus::NothingPlaying => Ok(StopAction::NothingPlayingNotice),
        VoteStatus::AlreadyVoted => Ok(StopAction::AlreadyVotedNotice),
        VoteStatus::NeedsMoreVotes(n) => Ok(StopAction::MoreVotesNeeded(n)),
        VoteStatus::Success => if speaker_active {
            model.set_channel_stopped(channel);
            Ok(StopAction::CutPlayback)
        } else {
            Err(DesyncFault::ModelActiveSpeakerIdle)
        },
    }
}

/// What to do for a pause command.
#[derive(Clone, Copy, PartialEq, Eq, Structural, Debug)]
pub enum PauseAction {
    /// An unpaused item is active in the user's channel: pause it.
    Pause,
    /// Nothing is playing there (or it is already paused): post a notice.
    NothingPlayingNotice,
}

/// Decides a pause command from the speaker's state in the user's
/// channel: `Some(paused)` when a session is active there, `None` when
/// not. Only an active, unpaused session is paused.
pub fn pause_action(speaker: Option<bool>) -> (r: PauseAction)
    ensures
        match r {
            PauseAction::Pause => speaker == Some(false),
            PauseAction::NothingPlayingNotice => speaker != Some(false),
        },
{
    match speaker {
        Some(paused) => if paused {
            PauseAction::NothingPlayingNotice
        } else {
            PauseAction::Pause
        },
        None => PauseAction::NothingPlayingNotice,
    }
}

/// What to do for a play command that carries no search term.
#[derive(Clone, Copy, PartialEq, Eq, Structural, Debug)]
pub enum UnpauseAction {
    /// A paused item is active in the user's channel: resume it.
    Unpause,
    /// An unpaused item is already playing there: post a notice.
    AlreadyPlayingNotice,
    /// Nothing is active and no speaker is free for the channel.
    NoSpeakerNotice,
    /// Nothing is active and a speaker is free: ask the model for the
    /// next entry of this channel.
    StartNext,
}

/// Decides an unpause command from the speaker's state in the user's
/// channel (`Some(paused)` when a session is active there) and whether a
/// free speaker could play in it.
pub fn unpause_action(speaker: Option<bool>, speaker_available: bool) -> (r: UnpauseAction)
    ensures
        match r {
            UnpauseAction::Unpause => speaker == Some(true),
            UnpauseAction::AlreadyPlayingNotice => speaker == Some(false),
            UnpauseAction::NoSpeakerNotice => speaker is None && !speaker_available,
            UnpauseAction::StartNext => speaker is None && speaker_available,
        },
{
    match speaker {
        Some(paused) => if paused {
            UnpauseAction::Unpause
        } else {
            UnpauseAction::AlreadyPlayingNotice
        },
        None => if speaker_available {
            UnpauseAction::StartNext
        } else {
            UnpauseAction::NoSpeakerNotice
        },
    }
}

/// What to do after a play command's entry has been queued.
pub enum QueuePlayAction<E> {
    /// The entry stays queued: the user is in no voice channel, the
    /// channel already plays, or no queued entry of a present user exists.
    KeptQueued,
    /// The entry stays queued because no speaker is free for the channel.
    KeptQueuedNoSpeaker,
    /// Start playing this entry in this channel.
    Play(u64, E),
}

/// Decides the rest of a play command once its entry has been queued with
/// [`GuildModel::push_entry`]: if the user occupies a voice channel and a
/// speaker is free for it, asks the model for the channel's next entry;
/// in every other case the entry simply stays queued.
pub fn queue_play_followup<E>(
    model: &mut GuildModel<E>,
    snap: &VoiceSnapshot,
    user: u64,
    speaker_available: bool,
) -> (r: QueuePlayAction<E>)
    requires
        old(model).wf(),
        snap.wf(),
    ensures
        final(model).wf(),
        snap.user_channel(user) is None ==> r is KeptQueued,
        (snap.user_channel(user) is Some && !speaker_available) ==> r is KeptQueuedNoSpeaker,
        match r {
            QueuePlayAction::KeptQueued => *final(model) == *old(model)
                && match snap.user_channel(user) {
                    Option::Some(c) => snap.is_active(c)
                        || (forall|u2: u64| !old(model).eligible(*snap, c, u2)),
                    Option::None => true,
                },
            QueuePlayAction::KeptQueuedNoSpeaker => *final(model) == *old(model)
                && !speaker_available && snap.user_channel(user) is Some,
            QueuePlayAction::Play(c, e) => {
                &&& snap.user_channel(user) == Some(c)
                &&& speaker_available
                &&& !snap.is_active(c)
                &&& serves_next(*old(model), *final(model), *snap, c, e)
            },
        },
{
    let channel = match snap.user_channel_q(user) {
        Some(c) => c,
        None => {
            return QueuePlayAction::KeptQueued;
        },
    };
    if !speaker_available {
        return QueuePlayAction::KeptQueuedNoSpeaker;
    }
    match model.next_channel_entry(snap, channel) {
        NextEntry::Entry(e) => QueuePlayAction::Play(channel, e),
        NextEntry::AlreadyPlaying => QueuePlayAction::KeptQueued,
        NextEntry::NoneAvailable => QueuePlayAction::KeptQueued,
    }
}

} // verus!
