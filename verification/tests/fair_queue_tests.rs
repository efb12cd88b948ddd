use mrvn_model::{FairQueue, VoiceSnapshot};

const CH: u64 = 10;

fn snapshot_with(users: &[u64], channel: u64) -> VoiceSnapshot {
    let mut snap = VoiceSnapshot::new();
    for &u in users {
        snap.join(u, channel);
    }
    snap
}

#[test]
fn fairness_alternates_between_two_users() {
    let mut q: FairQueue<u64> = FairQueue::new();
    let snap = snapshot_with(&[1, 2], CH);
    q.push(1, 101);
    q.push(1, 102);
    q.push(2, 201);
    q.push(2, 202);
    assert_eq!(q.select_for(&snap, CH), Some(101));
    assert_eq!(q.select_for(&snap, CH), Some(201));
    assert_eq!(q.select_for(&snap, CH), Some(102));
    assert_eq!(q.select_for(&snap, CH), Some(202));
    assert_eq!(q.select_for(&snap, CH), None);
}

#[test]
fn user_without_entries_is_skipped_without_disturbing_rotation() {
    let mut q: FairQueue<u64> = FairQueue::new();
    let snap = snapshot_with(&[1, 2, 3], CH);
    q.push(1, 101);
    q.push(1, 102);
    // User 2 owns a lane but it is emptied before the others.
    q.push(2, 201);
    q.push(3, 301);
    q.push(3, 302);
    assert_eq!(q.select_for(&snap, CH), Some(101));
    assert_eq!(q.select_for(&snap, CH), Some(201));
    assert_eq!(q.select_for(&snap, CH), Some(301));
    // User 2 is now empty: rotation continues 1, 3 without it.
    assert_eq!(q.select_for(&snap, CH), Some(102));
    assert_eq!(q.select_for(&snap, CH), Some(302));
    assert_eq!(q.select_for(&snap, CH), None);
}

#[test]
fn absent_user_is_never_selected() {
    let mut q: FairQueue<u64> = FairQueue::new();
    let mut snap = VoiceSnapshot::new();
    snap.join(1, CH);
    q.push(1, 101);
    q.push(5, 501);
    // User 5 occupies no channel: only user 1's entry can come out.
    assert_eq!(q.select_for(&snap, CH), Some(101));
    assert_eq!(q.select_for(&snap, CH), None);
    // User 5 in a different channel: still nothing for CH.
    snap.join(5, CH + 1);
    assert_eq!(q.select_for(&snap, CH), None);
    // Once user 5 is observed present, the entry is eligible.
    snap.join(5, CH);
    assert_eq!(q.select_for(&snap, CH), Some(501));
}

#[test]
fn selection_is_per_channel() {
    let mut q: FairQueue<u64> = FairQueue::new();
    let mut snap = VoiceSnapshot::new();
    snap.join(1, CH);
    snap.join(2, CH + 1);
    q.push(1, 101);
    q.push(2, 201);
    assert_eq!(q.select_for(&snap, CH + 1), Some(201));
    assert_eq!(q.select_for(&snap, CH + 1), None);
    assert_eq!(q.select_for(&snap, CH), Some(101));
}

#[test]
fn peek_latest_sees_most_recent_entry() {
    let mut q: FairQueue<u64> = FairQueue::new();
    assert_eq!(q.peek_latest(1), None);
    q.push(1, 101);
    q.push(1, 102);
    assert_eq!(q.peek_latest(1), Some(&102));
    assert_eq!(q.peek_latest(2), None);
}

#[test]
fn replace_latest_swaps_in_place() {
    let mut q: FairQueue<u64> = FairQueue::new();
    let snap = snapshot_with(&[1], CH);
    q.push(1, 101);
    q.push(1, 102);
    assert_eq!(q.replace_latest(1, 110), Ok(102));
    // The swapped entry keeps its queue position: 101 still first.
    assert_eq!(q.select_for(&snap, CH), Some(101));
    assert_eq!(q.select_for(&snap, CH), Some(110));
}

#[test]
fn replace_latest_hands_entry_back_when_nothing_pending() {
    let mut q: FairQueue<u64> = FairQueue::new();
    assert_eq!(q.replace_latest(1, 110), Err(110));
    let snap = snapshot_with(&[1], CH);
    assert_eq!(q.select_for(&snap, CH), None);
}
