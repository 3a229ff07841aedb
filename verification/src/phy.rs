//! Link status model and the interface of an Ethernet PHY driver.
//!
//! A link poll produces a [`LinkStatus`]: down, or up with the negotiated
//! [`Speed`] and [`DuplexMode`]. The negotiated technology is resolved from
//! the shared capabilities of both link partners by the strict descending
//! priority order of IEEE 802.3 auto-negotiation, captured in
//! [`link_from_nego`].

use vstd::prelude::*;

use crate::smi::StationManagement;

verus! {

/// Link speed.
#[derive(Debug, PartialEq, Eq, Structural, Clone, Copy)]
pub enum Speed {
    /// 10 MBit.
    _10,
    /// 100 MBit.
    _100,
    /// 1000 MBit.
    _1000,
    /// 2500 MBit.
    _2500,
    /// 5000 MBit.
    _5000,
    /// 10000 MBit.
    _10000,
}

/// Duplex.
#[derive(Debug, PartialEq, Eq, Structural, Clone, Copy)]
pub enum DuplexMode {
    /// Full.
    Full,
    /// Half.
    Half,
}

/// Link status.
#[derive(Debug, PartialEq, Eq, Structural, Clone, Copy)]
pub enum LinkStatus {
    /// Link down.
    Down,
    /// Link up with `Speed` and `Duplex`.
    Up {
        /// Link speed.
        speed: Speed,
        /// Link duplex.
        duplex: DuplexMode,
    },
}

impl LinkStatus {
    /// Is link up.
    pub fn is_up(&self) -> (r: bool)
        ensures
            r == (self is Up),
    {
        matches!(self, Self::Up { speed: _, duplex: _ })
    }

    /// Is link down.
    pub fn is_down(&self) -> (r: bool)
        ensures
            r == (self is Down),
    {
        matches!(self, Self::Down)
    }
}

/// Advertisement bit for 100 MBit full duplex, the highest-priority
/// technology this driver resolves.
pub const ANEG_100_FULL: u16 = 0x0100;

/// Advertisement bit for 100 MBit half duplex.
pub const ANEG_100_HALF: u16 = 0x0080;

/// Advertisement bit for 10 MBit full duplex.
pub const ANEG_10_FULL: u16 = 0x0040;

/// The single technology resolved from the abilities shared by both link
/// partners (`nego` is the bitwise AND of the local advertisement and the
/// partner ability word): the first match in strict descending priority
/// wins, and a shared word with none of the three priority bits resolves to
/// 10 MBit half duplex.
pub open spec fn link_from_nego(nego: u16) -> LinkStatus {
    if nego & ANEG_100_FULL != 0 {
        LinkStatus::Up { speed: Speed::_100, duplex: DuplexMode::Full }
    } else if nego & ANEG_100_HALF != 0 {
        LinkStatus::Up { speed: Speed::_100, duplex: DuplexMode::Half }
    } else if nego & ANEG_10_FULL != 0 {
        LinkStatus::Up { speed: Speed::_10, duplex: DuplexMode::Full }
    } else {
        LinkStatus::Up { speed: Speed::_10, duplex: DuplexMode::Half }
    }
}

/// Resolves the negotiated technology from the shared ability word.
///
/// Negotiation resolution always produces an up status: it is only invoked
/// once auto-negotiation has completed and the link is up.
pub fn resolve_link(nego: u16) -> (r: LinkStatus)
    ensures
        r == link_from_nego(nego),
        r is Up,
{
    if nego & ANEG_100_FULL != 0 {
        LinkStatus::Up { speed: Speed::_100, duplex: DuplexMode::Full }
    } else if nego & ANEG_100_HALF != 0 {
        LinkStatus::Up { speed: Speed::_100, duplex: DuplexMode::Half }
    } else if nego & ANEG_10_FULL != 0 {
        LinkStatus::Up { speed: Speed::_10, duplex: DuplexMode::Full }
    } else {
        LinkStatus::Up { speed: Speed::_10, duplex: DuplexMode::Half }
    }
}

/// A pacing primitive: suspends or busy-waits the caller for the given
/// number of time units, nominally milliseconds.
///
/// The surrounding system supplies it, as it supplies the bus backend; the
/// driver only fixes how often and with which argument it is invoked.
pub trait Delay {
    /// Wait for `units` time units before returning.
    fn delay(&mut self, units: u64);
}

/// Trait for an Ethernet PHY driver.
///
/// `inv` is the driver's well-formedness invariant; `ready` says that the
/// driver holds a resolved bus address, so that initialisation and link
/// polling may be invoked. A successful reset always leaves the driver
/// ready.
pub trait Phy {
    /// The driver's internal well-formedness invariant.
    spec fn inv(&self) -> bool;

    /// The driver knows the bus address of its device.
    spec fn ready(&self) -> bool;

    /// Reset the PHY, wait for it to come out of reset, and resolve the
    /// device's bus address if it is not yet known.
    fn phy_reset<S: StationManagement, D: Delay>(&mut self, sm: &mut S, delay: &mut D) -> (r:
        Result<(), ResetError<S::Error>>)
        requires
            old(self).inv(),
        ensures
            final(self).inv(),
            r is Ok ==> final(self).ready(),
    ;

    /// PHY initialisation.
    fn phy_init<S: StationManagement>(&mut self, sm: &mut S) -> (r: Result<(), S::Error>)
        requires
            old(self).inv(),
            old(self).ready(),
        ensures
            final(self).inv(),
            final(self).ready(),
    ;

    /// Poll the link and report whether it is up, and with which negotiated
    /// speed and duplex.
    fn poll_link<S: StationManagement, D: Delay>(&mut self, sm: &mut S, delay: &mut D) -> (r:
        Result<LinkStatus, S::Error>)
        requires
            old(self).inv(),
            old(self).ready(),
        ensures
            final(self).inv(),
            final(self).ready(),
    ;
}

/// The reset outcome of a driver that had to resolve its device address
/// first: a bus fault is propagated verbatim, while a device that never
/// answers on any candidate address is a fatal wiring condition, not a bus
/// error.
#[derive(Debug, PartialEq, Eq)]
pub enum ResetError<E> {
    /// A primitive bus operation failed; the backend's error, unchanged.
    Bus(E),
    /// No candidate address brought the device out of reset within the
    /// discovery budget.
    NoPhyFound,
}

} // verus!
