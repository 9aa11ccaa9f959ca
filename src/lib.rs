//! Calls of ledger contracts, verified: argument encoding with token amounts,
//! message headers, the choice of execution path, local emulation inputs and
//! the parameters of a diagnostic replay.

pub mod convert;
pub mod dinterface;
pub mod dispatch;
pub mod emulate;
pub mod header;
pub mod params;
pub mod replay;
