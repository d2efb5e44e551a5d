//! The coordination core of a local surplus-produce service.
//!
//! - `claim`, `ledger`, `claim_laws`, `claim_read`: the claim state machine, the
//!   listing inventory it moves, and who may see which claims.
//! - `listing`, `crop_library`: validation of listing, request and crop-library
//!   writes, deterministic listing ids and idempotent creation.
//! - `signals`, `signal_table`, `replay`, `feed`: the derived-signal aggregation,
//!   its upsert table, the replay/backfill driver's decisions and the feed's
//!   freshness rule.
//! - `geo`, `discovery`, `query`, `queries`, `address`, `text`: geohash keys,
//!   discovery scopes, query-string parsing and text normalization.
//! - `access`, `authorizer`, `wire`, `status`, `model`, `error`: entitlements,
//!   authorizer policy helpers, request bodies, closed enums, rows and errors.
//!
//! Quantities are fixed-point integers in thousandths of the listing's unit;
//! times are seconds since the Unix epoch; identifiers are 128-bit integers.

use vstd::prelude::*;

pub mod access;
pub mod address;
pub mod authorizer;
pub mod claim;
pub mod claim_laws;
pub mod claim_read;
pub mod crop_library;
pub mod discovery;
pub mod error;
pub mod feed;
pub mod geo;
pub mod ledger;
pub mod listing;
pub mod model;
pub mod queries;
pub mod query;
pub mod replay;
pub mod signal_table;
pub mod signals;
pub mod status;
pub mod text;
pub mod wire;

verus! {

} // verus!
