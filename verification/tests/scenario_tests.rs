use mrvn_model::commands::{queue_play_followup, skip_followup};
use mrvn_model::{
    EndedAction, GuildModel, QueuePlayAction, SkipAction, VoiceSnapshot, VoteStatus, VoteType,
};

const C: u64 = 40;
const U1: u64 = 1;
const U2: u64 = 2;
const U3: u64 = 3;
const S1: u64 = 1001;
const S2: u64 = 1002;

#[test]
fn end_to_end_queue_play_advance_and_skip() {
    let mut model: GuildModel<u64> = GuildModel::new();
    let mut snap = VoiceSnapshot::new();

    // U1 queues S1 while absent from any channel: the entry stays queued
    // and no speaker call is made.
    model.push_entry(U1, S1);
    assert!(matches!(
        queue_play_followup(&mut model, &snap, U1, true),
        QueuePlayAction::KeptQueued
    ));

    // U1 joins C; U2, present in C, queues S2. The selection for C picks
    // S1: U1 is the first eligible user.
    snap.join(U1, C);
    snap.join(U2, C);
    model.push_entry(U2, S2);
    match queue_play_followup(&mut model, &snap, U2, true) {
        QueuePlayAction::Play(channel, entry) => {
            assert_eq!(channel, C);
            assert_eq!(entry, S1);
        },
        _ => panic!("expected Play"),
    }
    snap.set_active(C, U1);

    // S1 finishes; the ended handler asks for the next entry: S2.
    snap.clear_active(C);
    match model.playback_ended(&snap, C) {
        EndedAction::Play(entry) => assert_eq!(entry, S2),
        _ => panic!("expected Play"),
    }
    snap.set_active(C, U2);

    // A third listener joins: three present users, majority of two.
    snap.join(U3, C);
    let first = model.vote_for_skip(&snap, VoteType::Skip, C, U3);
    assert_eq!(first, VoteStatus::NeedsMoreVotes(1));
    assert_eq!(skip_followup(first, true), Ok(SkipAction::MoreVotesNeeded(1)));

    // A second distinct voter fires the skip: playback is cut.
    let second = model.vote_for_skip(&snap, VoteType::Skip, C, U1);
    assert_eq!(second, VoteStatus::Success);
    assert_eq!(skip_followup(second, true), Ok(SkipAction::CutPlayback));
}
