//! Finvoroo Print Agent library: pairing, authentication, configuration rules,
//! print-job planning and the ESC/POS raster pipeline for thermal receipts.

pub mod auth;
pub mod config;
pub mod external;
pub mod pairing;
pub mod print;
pub mod server;
pub mod text;
pub mod updater;

use vstd::prelude::*;

verus! {

/// Port the agent listens on when the configuration names none.
pub const DEFAULT_PORT: u16 = 17392;

} // verus!
