//! Driver core for an IEEE 802.3 Ethernet PHY reached over the two-wire
//! station management interface (SMI, also called MDIO).
//!
//! The crate has four parts:
//!
//! - [`regs`] models the Clause 22 and Clause 45 register addresses;
//! - [`smi`] defines the [`smi::StationManagement`] capability that a bus
//!   backend supplies, together with verified default implementations of the
//!   Clause 45 composite operations built from Clause 22 primitives;
//! - [`phy`] holds the link-status model and the [`phy::Phy`] interface;
//! - [`generic`] drives reset, address discovery, initialisation and link
//!   polling for a generic PHY through any [`smi::StationManagement`] backend.
//!
//! Every bus transaction that a verified function issues is recorded in a
//! ghost trace of [`smi::SmiOp`] values, and the contracts state the exact
//! sequence of primitive operations each composite operation performs.

pub mod generic;
pub mod phy;
pub mod regs;
pub mod smi;

pub use smi::SmiOp;
pub use smi::StationManagement;
