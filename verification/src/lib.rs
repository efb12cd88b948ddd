//! Per-guild playback-queue and vote-coordination core for a voice-channel
//! media bot.
//!
//! For each guild the model decides which queued item plays next in which
//! voice channel, arbitrates replace requests, and tracks collective
//! skip/stop votes. Presence and active-playback information is handed in
//! as plain data ([`snapshot::VoiceSnapshot`]); the audio transport itself
//! is an outside collaborator.

pub mod app_model;
pub mod assoc;
pub mod commands;
pub mod fair_queue;
pub mod guild_model;
pub mod snapshot;
pub mod vote;

pub use app_model::AppModel;
pub use commands::{DesyncFault, PauseAction, QueuePlayAction, SkipAction, StopAction,
    UnpauseAction};
pub use fair_queue::FairQueue;
pub use guild_model::{EndedAction, GuildModel, NextEntry, ReplaceStatus};
pub use snapshot::VoiceSnapshot;
pub use vote::{VoteStatus, VoteTracker, VoteType};
