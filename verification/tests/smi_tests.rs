//! Tests of the Clause 45 composite operations over a recording mock bus.

use core::convert::Infallible;

use phy_driver::StationManagement;
use phy_driver::regs::C22;
use phy_driver::regs::C45;
use phy_driver::regs::Mmd;
use phy_driver::regs::MMD_CONTROL;
use phy_driver::regs::MMD_DATA;

#[derive(Debug, PartialEq)]
enum A {
    Read(u8, C22),
    Write(u8, C22, u16),
}

struct MockMdioBus(Vec<A>);

impl MockMdioBus {
    pub fn clear(&mut self) {
        self.0.clear();
    }
}

impl StationManagement for MockMdioBus {
    type Error = Infallible;

    fn smi_read(&mut self, phy_addr: u8, reg: C22) -> Result<u16, Self::Error> {
        self.0.push(A::Read(phy_addr, reg));
        Ok(0)
    }

    fn smi_write(&mut self, phy_addr: u8, reg: C22, val: u16) -> Result<(), Self::Error> {
        self.0.push(A::Write(phy_addr, reg, val));
        Ok(())
    }
}

/// A bus that fails the operation with a given index with a fixed error
/// and records only the operations acknowledged before it.
struct FlakyBus {
    ops: Vec<A>,
    fail_on: usize,
}

impl StationManagement for FlakyBus {
    type Error = u8;

    fn smi_read(&mut self, phy_addr: u8, reg: C22) -> Result<u16, Self::Error> {
        if self.ops.len() == self.fail_on {
            return Err(0xE7);
        }
        self.ops.push(A::Read(phy_addr, reg));
        Ok(0)
    }

    fn smi_write(&mut self, phy_addr: u8, reg: C22, val: u16) -> Result<(), Self::Error> {
        if self.ops.len() == self.fail_on {
            return Err(0xE7);
        }
        self.ops.push(A::Write(phy_addr, reg, val));
        Ok(())
    }
}

#[test]
fn read_test() {
    let mut mdiobus = MockMdioBus(Vec::with_capacity(20));

    mdiobus.clear();
    assert_eq!(mdiobus.smi_read(0x01, C22(0x00)), Ok(0));
    assert_eq!(mdiobus.0, vec![A::Read(0x01, C22(0x00))]);

    mdiobus.clear();
    assert_eq!(mdiobus.smi_read_mmd(0x01, C45::new(Mmd(0xBB), 0x1234)), Ok(0));
    assert_eq!(
        mdiobus.0,
        vec![
            A::Write(0x01, C22(MMD_CONTROL), (0b00 << 14) | 27),
            A::Write(0x01, C22(MMD_DATA), 0x1234),
            A::Write(0x01, C22(MMD_CONTROL), (0b11 << 14) | 27),
            A::Read(0x01, C22(MMD_DATA))
        ]
    );
}

#[test]
fn write_test() {
    let mut mdiobus = MockMdioBus(Vec::with_capacity(20));

    mdiobus.clear();
    mdiobus.smi_write(0x1f, C22(0xDA), 0xBCDE).unwrap();
    assert_eq!(mdiobus.0, vec![A::Write(0x1f, C22(0xDA), 0xBCDE)]);

    mdiobus.clear();
    assert_eq!(
        mdiobus.smi_write_mmd(0x1f, C45::new(Mmd(0xBB), 0x3456), 0xCDEF),
        Ok(())
    );
    assert_eq!(
        mdiobus.0,
        vec![
            A::Write(0x1f, C22(MMD_CONTROL), 27),
            A::Write(0x1f, C22(MMD_DATA), 0x3456),
            A::Write(0x1f, C22(MMD_CONTROL), (0b01 << 14) | 27),
            A::Write(0x1f, C22(MMD_DATA), 0xCDEF)
        ]
    );
}

/// The device identifier is masked to its low 5 bits before it is OR'd
/// into the control words: 0xBB and 0x1B produce the same transaction.
#[test]
fn device_identifier_masked() {
    let mut a = MockMdioBus(Vec::new());
    let mut b = MockMdioBus(Vec::new());
    assert_eq!(a.smi_read_mmd(0x02, C45::new(Mmd(0xBB), 0x0007)), Ok(0));
    assert_eq!(b.smi_read_mmd(0x02, C45::new(Mmd(0x1B), 0x0007)), Ok(0));
    assert_eq!(a.0, b.0);
    assert_eq!(a.0[0], A::Write(0x02, C22(MMD_CONTROL), 0x001B));
}

/// A bus error on the first primitive aborts the composite read before
/// anything reaches the bus, and the error comes back unchanged.
#[test]
fn composite_read_aborts_on_first_failure() {
    let mut bus = FlakyBus { ops: Vec::new(), fail_on: 0 };
    assert_eq!(bus.smi_read_mmd(0x01, C45::new(Mmd(3), 0x8010)), Err(0xE7));
    assert_eq!(bus.ops, vec![]);
}

/// A bus error in the middle of a composite read keeps the operations
/// issued so far and nothing after the failing one.
#[test]
fn composite_read_aborts_midway() {
    let mut bus = FlakyBus { ops: Vec::new(), fail_on: 2 };
    assert_eq!(bus.smi_read_mmd(0x01, C45::new(Mmd(3), 0x8010)), Err(0xE7));
    assert_eq!(
        bus.ops,
        vec![
            A::Write(0x01, C22(MMD_CONTROL), 3),
            A::Write(0x01, C22(MMD_DATA), 0x8010),
        ]
    );
}

/// A bus error on the last primitive of a composite write leaves exactly
/// the three programming writes behind, and no read is ever issued.
#[test]
fn composite_write_aborts_on_last_failure() {
    let mut bus = FlakyBus { ops: Vec::new(), fail_on: 3 };
    assert_eq!(bus.smi_write_mmd(0x05, C45::new(Mmd(7), 0x0042), 0xABCD), Err(0xE7));
    assert_eq!(
        bus.ops,
        vec![
            A::Write(0x05, C22(MMD_CONTROL), 7),
            A::Write(0x05, C22(MMD_DATA), 0x0042),
            A::Write(0x05, C22(MMD_CONTROL), (0b01 << 14) | 7),
        ]
    );
    assert!(bus.ops.iter().all(|op| matches!(op, A::Write(_, _, _))));
}
