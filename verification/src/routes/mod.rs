//! What the HTTP handlers decide, apart from the database and the network.
pub mod accounts;
pub mod asset_snapshots;
pub mod auth;
pub mod card_presets;
pub mod cards;
pub mod categories;
pub mod dashboard;
pub mod export;
pub mod imports;
pub mod kream;
pub mod telegram;
pub mod transactions;
