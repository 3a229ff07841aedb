//! Register address model for the Ethernet management interface, clauses 22
//! and 45 of IEEE 802.3.
//!
//! A Clause 22 register is one of the 32 directly addressable registers of a
//! PHY. A Clause 45 register lives in the namespace of a management device
//! (MMD) and is reached indirectly, through the two Clause 22 registers
//! [`MMD_CONTROL`] and [`MMD_DATA`].
//!
//! The standard register numbers and device identifiers are named constants;
//! wrap one in [`C22`] or [`Mmd`] to use it in a bus operation.

use vstd::prelude::*;

verus! {

// Clause 22 register numbers fixed by IEEE 802.3.

/// Basic mode control.
pub const BMCR: u8 = 0x00;

/// Basic mode status.
pub const BMSR: u8 = 0x01;

/// PHY identifier 1.
pub const PHYSID1: u8 = 0x02;

/// PHY identifier 2.
pub const PHYSID2: u8 = 0x03;

/// Auto-negotiation advertisement.
pub const ADVERTISE: u8 = 0x04;

/// Auto-negotiation link partner base page ability.
pub const LPA: u8 = 0x05;

/// Auto-negotiation expansion.
pub const EXPANSION: u8 = 0x06;

/// Auto-negotiation next page transmit.
pub const NEXT_PAGE_TRANSMIT: u8 = 0x07;

/// Auto-negotiation link partner received next page.
pub const LP_RECEIVED_NEXT_PAGE: u8 = 0x08;

/// Master-slave control.
pub const MASTER_SLAVE_CONTROL: u8 = 0x09;

/// Master-slave status.
pub const MASTER_SLAVE_STATUS: u8 = 0x0a;

/// PSE control.
pub const PSE_CONTROL: u8 = 0x0b;

/// PSE status.
pub const PSE_STATUS: u8 = 0x0c;

/// MMD register control.
pub const MMD_CONTROL: u8 = 0x0d;

/// MMD register address data.
pub const MMD_DATA: u8 = 0x0e;

/// Extended status.
pub const EXTENDED_STATUS: u8 = 0x0f;

// Clause 45 management device identifiers fixed by IEEE 802.3.

/// Physical medium attachment/dependent.
pub const PMAPMD: u8 = 1;

/// WAN interface sublayer.
pub const WIS: u8 = 2;

/// Physical coding sublayer.
pub const PCS: u8 = 3;

/// PHY extender sublayer.
pub const PHYXS: u8 = 4;

/// DTE extender sublayer.
pub const DTEXS: u8 = 5;

/// Transmission convergence.
pub const TC: u8 = 6;

/// Auto negotiation.
pub const AN: u8 = 7;

/// Separated PMA (1).
pub const SEPARATED_PMA1: u8 = 8;

/// Separated PMA (2).
pub const SEPARATED_PMA2: u8 = 9;

/// Separated PMA (3).
pub const SEPARATED_PMA3: u8 = 10;

/// Separated PMA (4).
pub const SEPARATED_PMA4: u8 = 11;

/// OFDM PMA/PMD.
pub const OFDM_PMAPMD: u8 = 12;

/// Power unit.
pub const POWER_UNIT: u8 = 13;

/// Clause 22 extension.
pub const C22_EXT: u8 = 29;

/// Vendor specific 1.
pub const VEND1: u8 = 30;

/// Vendor specific 2.
pub const VEND2: u8 = 31;

/// A single MDIO Clause 22 register address (5 bits significant).
#[derive(Copy, Clone, Debug, PartialEq, Eq, Structural)]
pub struct C22(pub u8);

impl C22 {
    /// Creates a new instance of `C22` with a vendor specific register.
    ///
    /// The vendor specific range is the upper half of the Clause 22 address
    /// space, registers 16 to 31; a value outside it is rejected when the
    /// call is verified, not at run time.
    pub fn vendor_specific<const N: u8>() -> (r: Self)
        requires
            0x0f < N < 0x20,
        ensures
            r == C22(N),
    {
        C22(N)
    }
}

/// A single MDIO Clause 45 management device identifier (5 bits significant).
#[derive(Copy, Clone, Debug, PartialEq, Eq, Structural)]
pub struct Mmd(pub u8);

/// A single MDIO Clause 45 register device and address.
///
/// Clause 45 uses a 5-bit device identifier to select a specific MMD within
/// a port, then a 16-bit register number to select a location within that
/// device. `C45` represents this by storing a [`Mmd`] and a register number.
#[derive(Debug, Clone, Copy)]
pub struct C45 {
    /// The management device that owns the register.
    pub devad: Mmd,
    /// The 16-bit register number within the device.
    pub regnum: u16,
}

impl C45 {
    /// Creates a new instance of `C45`.
    pub fn new(devad: Mmd, regnum: u16) -> (r: Self)
        ensures
            r == (C45 { devad, regnum }),
    {
        C45 { devad, regnum }
    }
}

} // verus!
