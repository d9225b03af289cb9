//! A stake-weighted governance engine.
//!
//! Accounts submit proposals and, until a proposal's deadline, stake value
//! for or against it in any of the supported assets. When a proposal is
//! closed, the stakes decide it: in favour, against, or not at all. A
//! proposal is closed or cancelled once, and is final from then on.
//!
//! The engine takes as arguments what a host would know: who is calling, what
//! the time is, what was deposited with the call, what the referendum
//! subsystem answered. It hands back a record of what happened, for the host
//! to announce.
//!
//! - [`tracker`] is the engine itself; [`ledger`], [`store`], [`proposal`],
//!   [`assets`], [`tally`], [`wide`] and [`guard`] are its parts.
//! - [`model`] says what the engine does, as a function from state and call
//!   to state; every operation of the engine is proved to do just that.
//! - [`laws`], [`order`] and [`sums`] prove what follows: that a closed
//!   proposal never changes, that a refused call changes nothing, that stakes
//!   only grow, that the tally counts every stake once, and that the order of
//!   the votes does not matter.
//! - [`events`] and [`text`] hold the records and notices that the engine
//!   hands out.

pub mod account;
pub mod assets;
pub mod error;
pub mod events;
pub mod guard;
pub mod laws;
pub mod ledger;
pub mod model;
pub mod order;
pub mod proposal;
pub mod store;
pub mod sums;
pub mod tally;
pub mod text;
pub mod tracker;
pub mod wide;
