//! Tests of the generic PHY driver: reset, discovery, initialisation and
//! link polling over scripted mock buses.

use phy_driver::StationManagement;
use phy_driver::generic::DEFAULT_POLL_INTERVAL;
use phy_driver::generic::GenericPhy;
use phy_driver::phy::Delay;
use phy_driver::phy::DuplexMode;
use phy_driver::phy::LinkStatus;
use phy_driver::phy::Phy;
use phy_driver::phy::ResetError;
use phy_driver::phy::Speed;
use phy_driver::phy::resolve_link;
use phy_driver::regs::ADVERTISE;
use phy_driver::regs::BMCR;
use phy_driver::regs::BMSR;
use phy_driver::regs::C22;
use phy_driver::regs::LPA;
use phy_driver::regs::MMD_CONTROL;
use phy_driver::regs::MMD_DATA;

const RESET_BIT: u16 = 1 << 15;
const ANDONE_BIT: u16 = 1 << 5;
const UP_BIT: u16 = 1 << 2;

#[derive(Debug, PartialEq)]
enum A {
    Read(u8, C22),
    Write(u8, C22, u16),
}

/// Counts and records every pacing request.
struct RecordingDelay(Vec<u64>);

impl Delay for RecordingDelay {
    fn delay(&mut self, units: u64) {
        self.0.push(units);
    }
}

/// A bus with exactly one device: reads of its basic mode control
/// register report the reset bit clear at the device's address, and still
/// set everywhere else.
struct DiscoveryBus {
    ops: Vec<A>,
    present: Option<u8>,
}

impl StationManagement for DiscoveryBus {
    type Error = u8;

    fn smi_read(&mut self, phy_addr: u8, reg: C22) -> Result<u16, Self::Error> {
        self.ops.push(A::Read(phy_addr, reg));
        if self.present == Some(phy_addr) {
            Ok(0)
        } else {
            Ok(RESET_BIT)
        }
    }

    fn smi_write(&mut self, phy_addr: u8, reg: C22, val: u16) -> Result<(), Self::Error> {
        self.ops.push(A::Write(phy_addr, reg, val));
        Ok(())
    }
}

/// A bus that answers successive reads from a scripted list of values.
struct ScriptBus {
    ops: Vec<A>,
    reads: Vec<u16>,
    next: usize,
    fail_on: Option<usize>,
}

impl StationManagement for ScriptBus {
    type Error = u8;

    fn smi_read(&mut self, phy_addr: u8, reg: C22) -> Result<u16, Self::Error> {
        if self.fail_on == Some(self.ops.len()) {
            return Err(0xB5);
        }
        self.ops.push(A::Read(phy_addr, reg));
        let v = self.reads.get(self.next).copied().unwrap_or(0);
        self.next += 1;
        Ok(v)
    }

    fn smi_write(&mut self, phy_addr: u8, reg: C22, val: u16) -> Result<(), Self::Error> {
        if self.fail_on == Some(self.ops.len()) {
            return Err(0xB5);
        }
        self.ops.push(A::Write(phy_addr, reg, val));
        Ok(())
    }
}

/// A bus whose link registers hold fixed values.
struct PollBus {
    ops: Vec<A>,
    bmsr: u16,
    adv: u16,
    lpa: u16,
}

impl StationManagement for PollBus {
    type Error = u8;

    fn smi_read(&mut self, phy_addr: u8, reg: C22) -> Result<u16, Self::Error> {
        self.ops.push(A::Read(phy_addr, reg));
        if reg == C22(BMSR) {
            Ok(self.bmsr)
        } else if reg == C22(ADVERTISE) {
            Ok(self.adv)
        } else if reg == C22(LPA) {
            Ok(self.lpa)
        } else {
            Ok(0)
        }
    }

    fn smi_write(&mut self, phy_addr: u8, reg: C22, val: u16) -> Result<(), Self::Error> {
        self.ops.push(A::Write(phy_addr, reg, val));
        Ok(())
    }
}

#[test]
fn construction_and_poll_interval() {
    let mut phy = GenericPhy::new(5);
    assert_eq!(phy.addr, Some(5));
    assert_eq!(phy.poll_interval, DEFAULT_POLL_INTERVAL);
    assert_eq!(phy.poll_interval, 500);
    phy.set_poll_interval(125);
    assert_eq!(phy.poll_interval, 125);
    assert_eq!(phy.addr, Some(5));

    let auto = GenericPhy::new_auto();
    assert_eq!(auto.addr, None);
    assert_eq!(auto.poll_interval, 500);
}

#[test]
fn link_status_queries() {
    let up = LinkStatus::Up { speed: Speed::_100, duplex: DuplexMode::Full };
    assert!(up.is_up());
    assert!(!up.is_down());
    assert!(LinkStatus::Down.is_down());
    assert!(!LinkStatus::Down.is_up());
}

#[test]
fn vendor_specific_register() {
    assert_eq!(C22::vendor_specific::<16>(), C22(16));
    assert_eq!(C22::vendor_specific::<31>(), C22(31));
}

/// Negotiation resolution follows the strict descending priority order.
#[test]
fn negotiation_priority_order() {
    assert_eq!(
        resolve_link(0x0180),
        LinkStatus::Up { speed: Speed::_100, duplex: DuplexMode::Full }
    );
    assert_eq!(
        resolve_link(0x00C0),
        LinkStatus::Up { speed: Speed::_100, duplex: DuplexMode::Half }
    );
    assert_eq!(
        resolve_link(0x0040),
        LinkStatus::Up { speed: Speed::_10, duplex: DuplexMode::Full }
    );
    assert_eq!(
        resolve_link(0x0000),
        LinkStatus::Up { speed: Speed::_10, duplex: DuplexMode::Half }
    );
}

/// With auto-negotiation still running, a poll reports down after the one
/// status read; the ability registers are never touched.
#[test]
fn poll_down_while_negotiating() {
    let mut phy = GenericPhy::new(1);
    let mut delay = RecordingDelay(Vec::new());
    let mut bus = PollBus { ops: Vec::new(), bmsr: UP_BIT, adv: 0x01E1, lpa: 0x01E1 };
    assert_eq!(phy.poll_link(&mut bus, &mut delay), Ok(LinkStatus::Down));
    assert_eq!(bus.ops, vec![A::Read(1, C22(BMSR))]);
    assert_eq!(delay.0, vec![500]);
}

/// With negotiation done but the link down, a poll still stops after the
/// status read.
#[test]
fn poll_down_when_link_down() {
    let mut phy = GenericPhy::new(1);
    let mut delay = RecordingDelay(Vec::new());
    let mut bus = PollBus { ops: Vec::new(), bmsr: ANDONE_BIT, adv: 0x01E1, lpa: 0x01E1 };
    assert_eq!(phy.poll_link(&mut bus, &mut delay), Ok(LinkStatus::Down));
    assert_eq!(bus.ops, vec![A::Read(1, C22(BMSR))]);
}

/// The highest-priority shared bit wins even when lower-priority bits are
/// shared as well.
#[test]
fn poll_resolves_highest_priority() {
    let mut phy = GenericPhy::new(1);
    let mut delay = RecordingDelay(Vec::new());
    let mut bus = PollBus {
        ops: Vec::new(),
        bmsr: ANDONE_BIT | UP_BIT,
        adv: 0x0180,
        lpa: 0x0180,
    };
    assert_eq!(
        phy.poll_link(&mut bus, &mut delay),
        Ok(LinkStatus::Up { speed: Speed::_100, duplex: DuplexMode::Full })
    );
    assert_eq!(
        bus.ops,
        vec![A::Read(1, C22(BMSR)), A::Read(1, C22(ADVERTISE)), A::Read(1, C22(LPA))]
    );
}

/// A shared word with only the 10 MBit full duplex bit resolves to that
/// technology; one with none of the priority bits falls back to 10 MBit
/// half duplex.
#[test]
fn poll_resolves_low_priorities() {
    let mut phy = GenericPhy::new(9);
    let mut delay = RecordingDelay(Vec::new());

    let mut bus = PollBus {
        ops: Vec::new(),
        bmsr: ANDONE_BIT | UP_BIT,
        adv: 0x0040,
        lpa: 0xFFFF,
    };
    assert_eq!(
        phy.poll_link(&mut bus, &mut delay),
        Ok(LinkStatus::Up { speed: Speed::_10, duplex: DuplexMode::Full })
    );

    let mut bus = PollBus {
        ops: Vec::new(),
        bmsr: ANDONE_BIT | UP_BIT,
        adv: 0x0020,
        lpa: 0x0040,
    };
    assert_eq!(
        phy.poll_link(&mut bus, &mut delay),
        Ok(LinkStatus::Up { speed: Speed::_10, duplex: DuplexMode::Half })
    );
}

/// Initialisation issues the composite wake-up clear, then the one
/// control write with auto-negotiation enable, restart and speed select.
#[test]
fn init_sequence() {
    let mut phy = GenericPhy::new(3);
    let mut bus = ScriptBus { ops: Vec::new(), reads: Vec::new(), next: 0, fail_on: None };
    assert_eq!(phy.phy_init(&mut bus), Ok(()));
    assert_eq!(
        bus.ops,
        vec![
            A::Write(3, C22(MMD_CONTROL), 0x0003),
            A::Write(3, C22(MMD_DATA), 0x8010),
            A::Write(3, C22(MMD_CONTROL), (0b01 << 14) | 0x0003),
            A::Write(3, C22(MMD_DATA), 0),
            A::Write(3, C22(BMCR), 0x3200),
        ]
    );
}

/// A failure in the wake-up clear aborts initialisation: the control
/// write is never attempted.
#[test]
fn init_aborts_on_first_step() {
    let mut phy = GenericPhy::new(3);
    let mut bus = ScriptBus { ops: Vec::new(), reads: Vec::new(), next: 0, fail_on: Some(1) };
    assert_eq!(phy.phy_init(&mut bus), Err(0xB5));
    assert_eq!(bus.ops, vec![A::Write(3, C22(MMD_CONTROL), 0x0003)]);
}

/// A reset at a known address writes the reset bit and polls until it
/// reads clear.
#[test]
fn reset_known_address() {
    let mut phy = GenericPhy::new(2);
    let mut delay = RecordingDelay(Vec::new());
    let mut bus = ScriptBus {
        ops: Vec::new(),
        reads: vec![RESET_BIT, RESET_BIT, RESET_BIT, 0],
        next: 0,
        fail_on: None,
    };
    assert_eq!(phy.phy_reset(&mut bus, &mut delay), Ok(()));
    assert_eq!(
        bus.ops,
        vec![
            A::Write(2, C22(BMCR), RESET_BIT),
            A::Read(2, C22(BMCR)),
            A::Read(2, C22(BMCR)),
            A::Read(2, C22(BMCR)),
            A::Read(2, C22(BMCR)),
        ]
    );
    assert_eq!(phy.addr, Some(2));
}

/// A bus fault during the reset wait is returned unchanged.
#[test]
fn reset_known_address_bus_fault() {
    let mut phy = GenericPhy::new(2);
    let mut delay = RecordingDelay(Vec::new());
    let mut bus = ScriptBus {
        ops: Vec::new(),
        reads: vec![RESET_BIT, RESET_BIT],
        next: 0,
        fail_on: Some(2),
    };
    assert_eq!(phy.phy_reset(&mut bus, &mut delay), Err(ResetError::Bus(0xB5)));
    assert_eq!(
        bus.ops,
        vec![A::Write(2, C22(BMCR), RESET_BIT), A::Read(2, C22(BMCR))]
    );
}

/// Discovery adopts the first candidate address whose reset bit clears,
/// and issues no operation for any address above it.
#[test]
fn discovery_resolves_address_seven() {
    let mut phy = GenericPhy::new_auto();
    let mut delay = RecordingDelay(Vec::new());
    let mut bus = DiscoveryBus { ops: Vec::new(), present: Some(7) };
    assert_eq!(phy.phy_reset(&mut bus, &mut delay), Ok(()));
    assert_eq!(phy.addr, Some(7));

    // Seven failed candidates of 11 operations each, then the write and
    // the single read at address 7.
    assert_eq!(bus.ops.len(), 7 * 11 + 2);
    for a in 0..7u8 {
        assert_eq!(bus.ops[a as usize * 11], A::Write(a, C22(BMCR), RESET_BIT));
        for k in 1..11usize {
            assert_eq!(bus.ops[a as usize * 11 + k], A::Read(a, C22(BMCR)));
        }
    }
    assert_eq!(bus.ops[77], A::Write(7, C22(BMCR), RESET_BIT));
    assert_eq!(bus.ops[78], A::Read(7, C22(BMCR)));
    assert!(bus.ops.iter().all(|op| match op {
        A::Read(a, _) => *a <= 7,
        A::Write(a, _, _) => *a <= 7,
    }));
}

/// A discovery that never sees the reset bit clear fails fatally after
/// exactly 32 times 10 poll reads, one budget per candidate.
#[test]
fn discovery_exhausts_all_candidates() {
    let mut phy = GenericPhy::new_auto();
    let mut delay = RecordingDelay(Vec::new());
    let mut bus = DiscoveryBus { ops: Vec::new(), present: None };
    assert_eq!(phy.phy_reset(&mut bus, &mut delay), Err(ResetError::NoPhyFound));
    assert_eq!(phy.addr, None);

    assert_eq!(bus.ops.len(), 32 * 11);
    let reads = bus.ops.iter().filter(|op| matches!(op, A::Read(_, _))).count();
    assert_eq!(reads, 32 * 10);
    // One pacing delay per poll read.
    assert_eq!(delay.0.len(), 320);
    assert!(delay.0.iter().all(|u| *u == 10));
}

/// A device on the very first candidate address is adopted after a single
/// write and read.
#[test]
fn discovery_resolves_address_zero() {
    let mut phy = GenericPhy::new_auto();
    let mut delay = RecordingDelay(Vec::new());
    let mut bus = DiscoveryBus { ops: Vec::new(), present: Some(0) };
    assert_eq!(phy.phy_reset(&mut bus, &mut delay), Ok(()));
    assert_eq!(phy.addr, Some(0));
    assert_eq!(
        bus.ops,
        vec![A::Write(0, C22(BMCR), RESET_BIT), A::Read(0, C22(BMCR))]
    );
    assert_eq!(delay.0, vec![]);
}

/// A device on the last candidate address is still found, after every
/// lower candidate has used its full budget.
#[test]
fn discovery_resolves_last_address() {
    let mut phy = GenericPhy::new_auto();
    let mut delay = RecordingDelay(Vec::new());
    let mut bus = DiscoveryBus { ops: Vec::new(), present: Some(31) };
    assert_eq!(phy.phy_reset(&mut bus, &mut delay), Ok(()));
    assert_eq!(phy.addr, Some(31));
    assert_eq!(bus.ops.len(), 31 * 11 + 2);
    assert_eq!(bus.ops[31 * 11], A::Write(31, C22(BMCR), RESET_BIT));
    assert_eq!(bus.ops[31 * 11 + 1], A::Read(31, C22(BMCR)));
}

/// A poll paces by the configured interval before touching the bus.
#[test]
fn poll_paces_by_configured_interval() {
    let mut phy = GenericPhy::new(4);
    phy.set_poll_interval(125);
    let mut delay = RecordingDelay(Vec::new());
    let mut bus = PollBus { ops: Vec::new(), bmsr: 0, adv: 0, lpa: 0 };
    assert_eq!(phy.poll_link(&mut bus, &mut delay), Ok(LinkStatus::Down));
    assert_eq!(delay.0, vec![125]);
}

/// A bus fault while reading the ability registers is returned unchanged;
/// the poll stops at the failing read.
#[test]
fn poll_aborts_on_bus_fault() {
    let mut phy = GenericPhy::new(1);
    let mut delay = RecordingDelay(Vec::new());
    let mut bus = ScriptBus {
        ops: Vec::new(),
        reads: vec![ANDONE_BIT | UP_BIT],
        next: 0,
        fail_on: Some(1),
    };
    assert_eq!(phy.poll_link(&mut bus, &mut delay), Err(0xB5));
    assert_eq!(bus.ops, vec![A::Read(1, C22(BMSR))]);
}

/// A bus fault during discovery aborts it at once instead of moving on to
/// the next candidate.
#[test]
fn discovery_aborts_on_bus_fault() {
    let mut phy = GenericPhy::new_auto();
    let mut delay = RecordingDelay(Vec::new());
    let mut bus = ScriptBus { ops: Vec::new(), reads: Vec::new(), next: 0, fail_on: Some(0) };
    assert_eq!(phy.phy_reset(&mut bus, &mut delay), Err(ResetError::Bus(0xB5)));
    assert_eq!(phy.addr, None);
    assert_eq!(bus.ops, vec![]);
}
