//! `peteksim` — the verified rule layer of the petekSim appraisal toolkit:
//! project ingest and file routing, well and tops discovery, the user-facing
//! vocabularies, framework and zonation checks, the zoned Monte Carlo's
//! bookkeeping, and the names, legends and lane layout of the chart and
//! well-log payloads.

pub mod charts;
pub mod classify;
pub mod error;
pub mod fluid;
pub mod framework;
pub mod inventory;
pub mod layering;
pub mod logs;
pub mod mc;
pub mod order;
pub mod paths;
pub mod text;
pub mod tops;
pub mod vocab;
pub mod wells;

pub use error::SrsError;
pub use fluid::Fluid;
