use mrvn_model::{AppModel, VoiceSnapshot};

const GUILD_A: u64 = 500;
const GUILD_B: u64 = 501;
const CH: u64 = 10;

#[test]
fn get_returns_the_same_model_for_one_guild() {
    let app: AppModel<u64> = AppModel::new();
    let mut snap = VoiceSnapshot::new();
    snap.join(1, CH);

    // Queue through one handle, observe through a fresh one.
    {
        let handle = app.get(GUILD_A);
        let mut model = handle.try_lock().expect("model should be unlocked");
        model.push_entry(1, 101);
    }
    {
        let handle = app.get(GUILD_A);
        let mut model = handle.try_lock().expect("model should be unlocked");
        assert_eq!(model.next_channel_entry_finished(&snap, CH), Some(101));
    }
}

#[test]
fn handles_for_one_guild_share_one_lock() {
    let app: AppModel<u64> = AppModel::new();
    let first = app.get(GUILD_A);
    let guard = first.try_lock().expect("model should be unlocked");
    // A second handle for the same guild is the same lockable cell.
    let second = app.get(GUILD_A);
    assert!(second.try_lock().is_err());
    drop(guard);
    assert!(second.try_lock().is_ok());
}

#[test]
fn different_guilds_are_independent() {
    let app: AppModel<u64> = AppModel::new();
    let mut snap = VoiceSnapshot::new();
    snap.join(1, CH);

    let handle_a = app.get(GUILD_A);
    let guard_a = handle_a.try_lock().expect("model should be unlocked");
    // Holding guild A's lock does not block guild B.
    let handle_b = app.get(GUILD_B);
    let mut model_b = handle_b.try_lock().expect("model should be unlocked");
    model_b.push_entry(1, 201);
    assert_eq!(model_b.next_channel_entry_finished(&snap, CH), Some(201));
    drop(guard_a);

    // Guild A's model never saw guild B's entry.
    let mut model_a = handle_a.try_lock().expect("model should be unlocked");
    assert_eq!(model_a.next_channel_entry_finished(&snap, CH), None);
}
