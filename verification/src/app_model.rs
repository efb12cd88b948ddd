//! Concurrent registry mapping guild identity to a lazily created,
//! independently lockable [`GuildModel`].
//!
//! Each guild's model sits behind its own asynchronous mutex, so commands
//! for different guilds never block each other, while commands for one
//! guild serialize on its lock. The registry itself is a sharded
//! concurrent map with atomic insert-if-absent, so at most one model is
//! ever created per guild; an entry, once created, is never removed.
//! Verus sees the map and the mutex only through the trusted declarations
//! below: everything the locked model then does is verified in
//! [`crate::guild_model`].

use vstd::prelude::*;

use std::sync::Arc;

use crate::guild_model::GuildModel;

verus! {

#[verifier::external_type_specification]
#[verifier::external_body]
#[verifier::reject_recursive_types(K)]
#[verifier::reject_recursive_types(V)]
#[verifier::reject_recursive_types(S)]
pub struct ExDashMap<K, V, S>(dashmap::DashMap<K, V, S>);

#[verifier::external_type_specification]
#[verifier::external_body]
#[verifier::reject_recursive_types(T)]
pub struct ExTokioMutex<T: ?Sized>(tokio::sync::Mutex<T>);

/// Registry of one lockable [`GuildModel`] per guild, created lazily and
/// kept for the process lifetime.
#[verifier::reject_recursive_types(E)]
pub struct AppModel<E> {
    guilds: dashmap::DashMap<u64, Arc<tokio::sync::Mutex<GuildModel<E>>>>,
}

impl<E> AppModel<E> {
    /// Relies on `dashmap::DashMap::new`: creates an empty map.
    #[verifier::external_body]
    pub fn new() -> (r: Self) {
        AppModel { guilds: dashmap::DashMap::new() }
    }

    /// Relies on `dashmap::DashMap::entry` and `Entry::or_insert_with`:
    /// returns the value stored under `guild_id`, first inserting a fresh
    /// one (here a lockable empty model) if none is stored; the lookup and
    /// insertion happen atomically under the key's shard lock, so
    /// concurrent callers for one guild all receive handles to the same
    /// model.
    #[verifier::external_body]
    pub fn get(&self, guild_id: u64) -> (r: Arc<tokio::sync::Mutex<GuildModel<E>>>) {
        self.guilds
            .entry(guild_id)
            .or_insert_with(|| Arc::new(tokio::sync::Mutex::new(GuildModel::new())))
            .clone()
    }
}

} // verus!
