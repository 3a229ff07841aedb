//! The station management capability and the Clause 45 composite protocol.
//!
//! A concrete bus backend supplies the two Clause 22 primitive operations,
//! [`StationManagement::smi_read`] and [`StationManagement::smi_write`]. On
//! top of them this module provides the Clause 45 composite operations as
//! verified default implementations: an extended register is reached
//! indirectly by programming the [`regs::MMD_CONTROL`] and
//! [`regs::MMD_DATA`] registers in a strict four-step sequence.
//!
//! Contracts are stated over a ghost trace: [`StationManagement::ops`]
//! abstracts a backend as the sequence of acknowledged bus operations, and
//! every contract of this crate says exactly which operations a call appends
//! to that trace.

use vstd::prelude::*;

use crate::regs;
use crate::regs::C22;
use crate::regs::C45;

verus! {

/// One acknowledged primitive operation on the management bus: a read that
/// returned `val`, or a write of `val`.
pub enum SmiOp {
    /// A Clause 22 register read that completed with value `val`.
    Read {
        /// The bus address of the PHY that was read.
        phy_addr: u8,
        /// The register that was read.
        reg: C22,
        /// The value the bus returned.
        val: u16,
    },
    /// A Clause 22 register write of value `val`.
    Write {
        /// The bus address of the PHY that was written.
        phy_addr: u8,
        /// The register that was written.
        reg: C22,
        /// The value that was written.
        val: u16,
    },
}

/// MMD control register function: address. Selects the extended register
/// that the next data access names.
pub const MMD_OP_ADDRESS: u16 = 0b00 << 14;

/// MMD control register function: write the selected extended register.
pub const MMD_OP_WRITE: u16 = 0b01 << 14;

/// MMD control register function: read the selected extended register and
/// increment the address afterwards.
pub const MMD_OP_POST_READ_INC_ADDR: u16 = 0b10 << 14;

/// MMD control register function: read the selected extended register.
pub const MMD_OP_READ: u16 = 0b11 << 14;

/// The significant bits of a Clause 45 device identifier.
pub const DEV_MASK: u8 = 0x1f;

/// The 16-bit word written to [`regs::MMD_CONTROL`]: a function opcode in
/// the top two bits, OR'd with the device identifier masked to 5 bits.
pub open spec fn mmd_control_word(op: u16, devad: u8) -> u16 {
    op | ((devad & DEV_MASK) as u16)
}

/// The two operations that select an extended register: program the device
/// identifier and the address function, then the 16-bit register number.
pub open spec fn c45_addr_setup(phy_addr: u8, reg: C45) -> Seq<SmiOp> {
    seq![
        SmiOp::Write {
            phy_addr,
            reg: C22(regs::MMD_CONTROL),
            val: mmd_control_word(MMD_OP_ADDRESS, reg.devad.0),
        },
        SmiOp::Write { phy_addr, reg: C22(regs::MMD_DATA), val: reg.regnum },
    ]
}

/// The three writes a composite read issues before it reads the data
/// register: address setup, then the read function.
pub open spec fn c45_read_request(phy_addr: u8, reg: C45) -> Seq<SmiOp> {
    c45_addr_setup(phy_addr, reg).push(
        SmiOp::Write {
            phy_addr,
            reg: C22(regs::MMD_CONTROL),
            val: mmd_control_word(MMD_OP_READ, reg.devad.0),
        },
    )
}

/// The full trace of a composite read that returned `val`: the read request
/// followed by the read of the data register.
pub open spec fn c45_read_ops(phy_addr: u8, reg: C45, val: u16) -> Seq<SmiOp> {
    c45_read_request(phy_addr, reg).push(
        SmiOp::Read { phy_addr, reg: C22(regs::MMD_DATA), val },
    )
}

/// The full trace of a composite write of `val`: address setup, the write
/// function, then the value into the data register.
pub open spec fn c45_write_ops(phy_addr: u8, reg: C45, val: u16) -> Seq<SmiOp> {
    c45_addr_setup(phy_addr, reg) + seq![
        SmiOp::Write {
            phy_addr,
            reg: C22(regs::MMD_CONTROL),
            val: mmd_control_word(MMD_OP_WRITE, reg.devad.0),
        },
        SmiOp::Write { phy_addr, reg: C22(regs::MMD_DATA), val },
    ]
}

/// The control word that selects the extended register address function
/// for device `devad`.
pub fn mmd_address_word(devad: u8) -> (r: u16)
    ensures
        r == mmd_control_word(MMD_OP_ADDRESS, devad),
{
    MMD_OP_ADDRESS | ((devad & DEV_MASK) as u16)
}

/// The control word that requests a read of the selected extended
/// register of device `devad`.
pub fn mmd_read_word(devad: u8) -> (r: u16)
    ensures
        r == mmd_control_word(MMD_OP_READ, devad),
{
    MMD_OP_READ | ((devad & DEV_MASK) as u16)
}

/// The control word that requests a write of the selected extended
/// register of device `devad`.
pub fn mmd_write_word(devad: u8) -> (r: u16)
    ensures
        r == mmd_control_word(MMD_OP_WRITE, devad),
{
    MMD_OP_WRITE | ((devad & DEV_MASK) as u16)
}

/// Station management interface (SMI) on an Ethernet PHY.
///
/// A backend models itself as the ghost trace [`StationManagement::ops`] of
/// acknowledged bus operations: a primitive that returns `Ok` appends
/// exactly its own operation, and a primitive that fails leaves the trace
/// unchanged. The composite Clause 45 operations have default
/// implementations that are verified against the primitives' contracts;
/// hardware with native Clause 45 support may override them, provided the
/// override still appends the trace the contract names.
pub trait StationManagement {
    /// `StationManagement` error type.
    type Error;

    /// The acknowledged bus operations so far, oldest first.
    ///
    /// A backend that is reasoned about overrides this function with its
    /// own model of the bus; the contracts below constrain a backend only
    /// through it. The default leaves the trace empty so that an
    /// unverified backend (a mock, a hardware wrapper) can implement the
    /// trait by supplying the two primitives alone; no implementation
    /// that keeps the default could ever meet the primitives' contracts,
    /// so the default proves nothing for anyone.
    open spec fn ops(&self) -> Seq<SmiOp> {
        Seq::empty()
    }

    /// Read a register over SMI.
    fn smi_read(&mut self, phy_addr: u8, reg: C22) -> (r: Result<u16, Self::Error>)
        requires
            phy_addr < 32,
        ensures
            r matches Ok(val) ==> final(self).ops() == old(self).ops().push(
                SmiOp::Read { phy_addr, reg, val },
            ),
            r is Err ==> final(self).ops() == old(self).ops(),
    ;

    /// Write a register over SMI.
    fn smi_write(&mut self, phy_addr: u8, reg: C22, val: u16) -> (r: Result<
        (),
        Self::Error,
    >)
        requires
            phy_addr < 32,
        ensures
            r is Ok ==> final(self).ops() == old(self).ops().push(
                SmiOp::Write { phy_addr, reg, val },
            ),
            r is Err ==> final(self).ops() == old(self).ops(),
    ;

    /// Read, Clause 45.
    ///
    /// This is the default implementation: four primitive operations in
    /// strict order, and the value of the final data-register read is the
    /// result. The first failing primitive aborts the sequence and its error
    /// is returned as-is. Hardware that supports direct Clause 45 operations
    /// may override it.
    fn smi_read_mmd(&mut self, phy_addr: u8, reg: C45) -> (r: Result<u16, Self::Error>)
        requires
            phy_addr < 32,
        ensures
            r matches Ok(val) ==> final(self).ops() == old(self).ops()
                + c45_read_ops(phy_addr, reg, val),
            r is Err ==> exists|k: int|
                0 <= k <= 3 && final(self).ops() == old(self).ops() + #[trigger] c45_read_request(
                    phy_addr,
                    reg,
                ).take(k),
    {
        let ctrl_addr: u16 = mmd_address_word(reg.devad.0);
        match self.smi_write(phy_addr, C22(regs::MMD_CONTROL), ctrl_addr) {
            Ok(()) => (),
            Err(e) => {
                proof {
                    assert(self.ops() =~= old(self).ops() + c45_read_request(
                        phy_addr,
                        reg,
                    ).take(0));
                }
                return Err(e);
            },
        }

        match self.smi_write(phy_addr, C22(regs::MMD_DATA), reg.regnum) {
            Ok(()) => (),
            Err(e) => {
                proof {
                    assert(self.ops() =~= old(self).ops() + c45_read_request(
                        phy_addr,
                        reg,
                    ).take(1));
                }
                return Err(e);
            },
        }

        let ctrl_read: u16 = mmd_read_word(reg.devad.0);
        match self.smi_write(phy_addr, C22(regs::MMD_CONTROL), ctrl_read) {
            Ok(()) => (),
            Err(e) => {
                proof {
                    assert(self.ops() =~= old(self).ops() + c45_read_request(
                        phy_addr,
                        reg,
                    ).take(2));
                }
                return Err(e);
            },
        }

        match self.smi_read(phy_addr, C22(regs::MMD_DATA)) {
            Ok(val) => {
                proof {
                    assert(self.ops() =~= old(self).ops() + c45_read_ops(
                        phy_addr,
                        reg,
                        val,
                    ));
                }
                Ok(val)
            },
            Err(e) => {
                proof {
                    assert(self.ops() =~= old(self).ops() + c45_read_request(
                        phy_addr,
                        reg,
                    ).take(3));
                }
                Err(e)
            },
        }
    }

    /// Write, Clause 45.
    ///
    /// This is the default implementation: four primitive write operations
    /// in strict order, never a read. The first failing primitive aborts the
    /// sequence and its error is returned as-is. Hardware that supports
    /// direct Clause 45 operations may override it.
    fn smi_write_mmd(&mut self, phy_addr: u8, reg: C45, reg_val: u16) -> (r: Result<
        (),
        Self::Error,
    >)
        requires
            phy_addr < 32,
        ensures
            r is Ok ==> final(self).ops() == old(self).ops() + c45_write_ops(
                phy_addr,
                reg,
                reg_val,
            ),
            r is Err ==> exists|k: int|
                0 <= k <= 3 && final(self).ops() == old(self).ops() + #[trigger] c45_write_ops(
                    phy_addr,
                    reg,
                    reg_val,
                ).take(k),
    {
        let ctrl_addr: u16 = mmd_address_word(reg.devad.0);
        match self.smi_write(phy_addr, C22(regs::MMD_CONTROL), ctrl_addr) {
            Ok(()) => (),
            Err(e) => {
                proof {
                    assert(self.ops() =~= old(self).ops() + c45_write_ops(
                        phy_addr,
                        reg,
                        reg_val,
                    ).take(0));
                }
                return Err(e);
            },
        }

        match self.smi_write(phy_addr, C22(regs::MMD_DATA), reg.regnum) {
            Ok(()) => (),
            Err(e) => {
                proof {
                    assert(self.ops() =~= old(self).ops() + c45_write_ops(
                        phy_addr,
                        reg,
                        reg_val,
                    ).take(1));
                }
                return Err(e);
            },
        }

        let ctrl_write: u16 = mmd_write_word(reg.devad.0);
        match self.smi_write(phy_addr, C22(regs::MMD_CONTROL), ctrl_write) {
            Ok(()) => (),
            Err(e) => {
                proof {
                    assert(self.ops() =~= old(self).ops() + c45_write_ops(
                        phy_addr,
                        reg,
                        reg_val,
                    ).take(2));
                }
                return Err(e);
            },
        }

        match self.smi_write(phy_addr, C22(regs::MMD_DATA), reg_val) {
            Ok(()) => {
                proof {
                    assert(self.ops() =~= old(self).ops() + c45_write_ops(
                        phy_addr,
                        reg,
                        reg_val,
                    ));
                }
                Ok(())
            },
            Err(e) => {
                proof {
                    assert(self.ops() =~= old(self).ops() + c45_write_ops(
                        phy_addr,
                        reg,
                        reg_val,
                    ).take(3));
                }
                Err(e)
            },
        }
    }
}

/// The device identifier is masked to 5 bits before it is OR'd into a
/// control word: the word depends only on the identifier's low 5 bits, and
/// the OR'd operand is below 32, whatever the identifier's high bits hold.
pub proof fn lemma_control_word_masks_device(op: u16, devad: u8)
    ensures
        mmd_control_word(op, devad) == mmd_control_word(op, devad & DEV_MASK),
        ((devad & DEV_MASK) as u16) < 32,
{
    assert((devad & 0x1f) & 0x1f == devad & 0x1f) by (bit_vector);
    assert((devad & 0x1f) < 32) by (bit_vector);
}

/// A composite read issues exactly four operations: three writes that
/// program the transaction, then the one read whose value is the result.
pub proof fn lemma_c45_read_shape(phy_addr: u8, reg: C45, val: u16)
    ensures
        c45_read_ops(phy_addr, reg, val).len() == 4,
        forall|i: int| 0 <= i < 3 ==> c45_read_ops(phy_addr, reg, val)[i] is Write,
        c45_read_ops(phy_addr, reg, val)[3] == (SmiOp::Read {
            phy_addr,
            reg: C22(regs::MMD_DATA),
            val,
        }),
{
}

/// A composite write issues exactly four operations and never a read.
pub proof fn lemma_c45_write_shape(phy_addr: u8, reg: C45, val: u16)
    ensures
        c45_write_ops(phy_addr, reg, val).len() == 4,
        forall|i: int| 0 <= i < 4 ==> c45_write_ops(phy_addr, reg, val)[i] is Write,
        c45_write_ops(phy_addr, reg, val)[3] == (SmiOp::Write {
            phy_addr,
            reg: C22(regs::MMD_DATA),
            val,
        }),
{
}

} // verus!
