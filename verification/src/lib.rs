//! The decision core of a local knowledge daemon.
//!
//! The daemon owns a Markdown vault, a derived index over it and a database. Clients reach it over
//! a local channel, prove who they are, and ask for capabilities by name. This crate holds every
//! rule of that: what a frame and a payload may say, who may do what, where a path may lead, how
//! the index follows the files, which settings count. What the filesystem, the database, the model
//! provider and the transport said is handed in as plain values, and what they are to do is handed
//! back.
//!
//! - Text, identifiers and outside computations: [`text`], [`ids`], [`crypto`], [`time`], [`json`].
//! - The vault: [`vault`], [`vault_provider`], [`vault_listing`], [`vault_reads`],
//!   [`vault_writes`], [`memory_vault`], [`governed`], [`provider`].
//! - Watching and indexing: [`vault_watcher`], [`index`], [`reconcile`], [`vault_scan`],
//!   [`automation_bridge`].
//! - The protocol: [`wire`], [`session`], [`payloads`], [`dispatch`], [`queries`], [`agent`],
//!   [`error`].
//! - Identity and access: [`admission`], [`catalog`], [`enrollment`].
//! - Composition: [`locations`], [`settings`], [`settings_schema`], [`config`], [`models`],
//!   [`daemon`].
pub mod admission;
pub mod agent;
pub mod automation_bridge;
pub mod catalog;
pub mod config;
pub mod crypto;
pub mod daemon;
pub mod dispatch;
pub mod enrollment;
pub mod error;
pub mod governed;
pub mod ids;
pub mod index;
pub mod json;
pub mod locations;
pub mod memory_vault;
pub mod models;
pub mod payloads;
pub mod provider;
pub mod queries;
pub mod reconcile;
pub mod session;
pub mod settings;
pub mod settings_schema;
pub mod text;
pub mod time;
pub mod vault;
pub mod vault_listing;
pub mod vault_provider;
pub mod vault_reads;
pub mod vault_scan;
pub mod vault_watcher;
pub mod vault_writes;
pub mod wire;

pub use config::{DaemonConfig, InferenceBearer, PromptConfig};
pub use daemon::{AuthenticatedLocalClient, LocalDaemon};
pub use error::DaemonError;
pub use governed::GovernedVaultProvider;
pub use locations::{data_directory_for, default_database_path_for};
pub use memory_vault::InMemoryVaultProvider;
pub use models::{resolve_default_model, ModelResolution};
pub use reconcile::{apply_event, AppliedEvent, ReconciliationError, ReconciliationReport};
pub use session::{AuthenticatedIpcClient, ProvisionedLocalClient};
pub use settings::{LocalSettings, SettingsError};
pub use vault::{
    PathNotation, VaultConfigError, VaultExclusion, VaultProviderConfig, VaultProviderMode,
    VaultScope,
};
pub use vault_listing::VaultScanError;
pub use vault_provider::{ConfinedPath, MarkdownVaultProvider, VaultPathError};
pub use vault_scan::{rebuild_vault, reconcile_vault, VaultReconciler};
pub use vault_watcher::{CoalescedEvent, EventQueue, VaultEvent, DEFAULT_DEBOUNCE_MILLIS};
pub use wire::{
    DaemonRequest, DaemonResponse, PairingChallenge, PairingResponse, WireResult, PROTOCOL_VERSION,
};
