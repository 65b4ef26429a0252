//! Portfolio tracking: a ledger of watched and held securities, and the
//! render pass that fetches one quote per distinct symbol and lays the
//! holdings out as a table of styled cells.

pub mod display;
pub mod holdings;
pub mod model;
pub mod money;
pub mod quote;
pub mod show;
pub mod watch;
