//! Reconciliation of league match results into a store of players, games and results.
//!
//! The library decides everything a sync run does: it turns source documents into
//! match records, resolves player identities, plans and applies game and result
//! upserts against a [`store::LeagueStore`], and guards runs with a single-flight state.

pub mod model;
pub mod text;
pub mod seat;
pub mod description;
pub mod store;
pub mod reconcile;
pub mod identity;
pub mod laws;
pub mod pipeline;
pub mod extract;
pub mod sync;
pub mod render;
pub mod dry_run;
pub mod report;
