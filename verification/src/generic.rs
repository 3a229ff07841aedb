//! A generic driver for any IEEE 802.3 PHY, built on the station
//! management capability alone.
//!
//! [`GenericPhy`] owns the device's bus address — known from construction,
//! or resolved by probing all 32 candidate addresses during reset — and
//! drives reset, initialisation and link polling through the generic
//! Clause 22 registers. Every contract names the exact operations a call
//! appends to the backend's ghost trace.

use vstd::prelude::*;

use crate::phy::Delay;
use crate::phy::LinkStatus;
use crate::phy::Phy;
use crate::phy::ResetError;
use crate::phy::link_from_nego;
use crate::phy::resolve_link;
use crate::regs;
use crate::regs::C22;
use crate::regs::C45;
use crate::regs::Mmd;
use crate::smi::SmiOp;
use crate::smi::StationManagement;
use crate::smi::c45_write_ops;

verus! {

/// Wake-up control/status extended register, in the PCS device namespace.
pub const WUCSR: u16 = 0x8010;

/// Basic mode control: collision test.
pub const BMCR_COLTEST: u16 = 1 << 7;

/// Basic mode control: full duplex.
pub const BMCR_FD: u16 = 1 << 8;

/// Basic mode control: restart auto-negotiation.
pub const BMCR_ANRST: u16 = 1 << 9;

/// Basic mode control: isolate.
pub const BMCR_ISOLATE: u16 = 1 << 10;

/// Basic mode control: power down.
pub const BMCR_POWERDN: u16 = 1 << 11;

/// Basic mode control: enable auto-negotiation.
pub const BMCR_AN: u16 = 1 << 12;

/// Basic mode control: select 100 MBit.
pub const BMCR_100M: u16 = 1 << 13;

/// Basic mode control: loopback.
pub const BMCR_LOOPBACK: u16 = 1 << 14;

/// Basic mode control: software reset; self-clears when the reset is done.
pub const BMCR_RESET: u16 = 1 << 15;

/// Basic mode status: jabber detected.
pub const BMSR_JABBER: u16 = 1 << 1;

/// Basic mode status: link is up.
pub const BMSR_UP: u16 = 1 << 2;

/// Basic mode status: remote fault.
pub const BMSR_FAULT: u16 = 1 << 4;

/// Basic mode status: auto-negotiation complete.
pub const BMSR_ANDONE: u16 = 1 << 5;

/// Reads given to each candidate address during discovery before moving on.
pub const DISCOVERY_ATTEMPTS: u64 = 10;

/// Time units (nominally milliseconds) between discovery attempts, so a
/// candidate gets a total budget of about 100 ms to come out of reset.
pub const DISCOVERY_RETRY_DELAY: u64 = 10;

/// Reads given to a device at a known address to come out of reset. The
/// protocol puts no deadline on this wait; the constant only bounds the
/// busy poll so that it provably terminates, and a device that stays in
/// reset this long is reported as absent.
pub const RESET_WAIT_POLLS: u64 = 0x1_0000_0000;

/// Default pacing interval of a link poll, in time units.
pub const DEFAULT_POLL_INTERVAL: u64 = 500;

/// A completed read of `reg` at address `a` that returned `val`.
pub open spec fn read_op(a: u8, reg: u8, val: u16) -> SmiOp {
    SmiOp::Read { phy_addr: a, reg: C22(reg), val }
}

/// A completed write of `val` to `reg` at address `a`.
pub open spec fn write_op(a: u8, reg: u8, val: u16) -> SmiOp {
    SmiOp::Write { phy_addr: a, reg: C22(reg), val }
}

/// The write that requests a software reset of the device at address `a`.
pub open spec fn reset_write(a: u8) -> SmiOp {
    write_op(a, regs::BMCR, BMCR_RESET)
}

/// A read of the basic mode control register at `a` that still showed the
/// reset bit.
pub open spec fn is_reset_set_read(op: SmiOp, a: u8) -> bool {
    op matches SmiOp::Read { phy_addr, reg, val } && phy_addr == a && reg == C22(regs::BMCR)
        && val & BMCR_RESET == BMCR_RESET
}

/// A read of the basic mode control register at `a` that showed the reset
/// bit clear.
pub open spec fn is_reset_clear_read(op: SmiOp, a: u8) -> bool {
    op matches SmiOp::Read { phy_addr, reg, val } && phy_addr == a && reg == C22(regs::BMCR)
        && val & BMCR_RESET != BMCR_RESET
}

/// A probe of candidate address `a` that ran out of attempts: the reset
/// write, then [`DISCOVERY_ATTEMPTS`] reads that all still showed the
/// reset bit.
pub open spec fn failed_probe(t: Seq<SmiOp>, a: u8) -> bool {
    &&& t.len() == DISCOVERY_ATTEMPTS + 1
    &&& t[0] == reset_write(a)
    &&& forall|i: int| 1 <= i < t.len() ==> is_reset_set_read(#[trigger] t[i], a)
}

/// `t` is the concatenated trace of failed probes of every address below
/// `n`, in ascending order.
pub open spec fn exhausted_below(t: Seq<SmiOp>, n: int) -> bool
    decreases n,
{
    if n <= 0 {
        t.len() == 0
    } else {
        &&& t.len() >= DISCOVERY_ATTEMPTS + 1
        &&& exhausted_below(t.take(t.len() - (DISCOVERY_ATTEMPTS + 1)), n - 1)
        &&& failed_probe(t.skip(t.len() - (DISCOVERY_ATTEMPTS + 1)), (n - 1) as u8)
    }
}

/// A probe of address `a` that observed the reset bit clear: the reset
/// write, reads that still showed the bit, then the read that found it
/// clear, all within the discovery attempt budget.
pub open spec fn success_probe(t: Seq<SmiOp>, a: u8) -> bool {
    &&& 2 <= t.len() <= DISCOVERY_ATTEMPTS + 2
    &&& t[0] == reset_write(a)
    &&& forall|i: int| 1 <= i < t.len() - 1 ==> is_reset_set_read(#[trigger] t[i], a)
    &&& is_reset_clear_read(t[t.len() - 1], a)
}

/// The trace of a discovery that resolved address `a`: failed probes of
/// every lower address, then a successful probe of `a`. No operation is
/// issued for any address above `a`.
pub open spec fn discovery_success(t: Seq<SmiOp>, a: u8) -> bool {
    &&& t.len() >= (DISCOVERY_ATTEMPTS + 1) * a
    &&& exhausted_below(t.take((DISCOVERY_ATTEMPTS + 1) * a as int), a as int)
    &&& success_probe(t.skip((DISCOVERY_ATTEMPTS + 1) * a as int), a)
}

/// An unfinished probe of address `a`, as a bus fault leaves it: nothing
/// yet, or the reset write and some reads that still showed the reset bit.
/// The failing operation itself was never acknowledged, so it does not
/// appear.
pub open spec fn probe_prefix(t: Seq<SmiOp>, a: u8) -> bool {
    ||| t.len() == 0
    ||| {
        &&& 1 <= t.len() <= DISCOVERY_ATTEMPTS
        &&& t[0] == reset_write(a)
        &&& forall|i: int| 1 <= i < t.len() ==> is_reset_set_read(#[trigger] t[i], a)
    }
}

/// The trace of a discovery that a bus fault cut short while probing some
/// address below 32.
pub open spec fn discovery_aborted(t: Seq<SmiOp>) -> bool {
    exists|a: u8|
        {
            &&& a < 32
            &&& t.len() >= (DISCOVERY_ATTEMPTS + 1) * a
            &&& exhausted_below(#[trigger] t.take((DISCOVERY_ATTEMPTS + 1) * a as int), a as int)
            &&& probe_prefix(t.skip((DISCOVERY_ATTEMPTS + 1) * a as int), a)
        }
}

/// The trace of a completed reset wait at the known address `a`: the reset
/// write, reads that still showed the reset bit, then the read that found
/// it clear.
pub open spec fn reset_wait_trace(t: Seq<SmiOp>, a: u8) -> bool {
    &&& 2 <= t.len() <= RESET_WAIT_POLLS + 1
    &&& t[0] == reset_write(a)
    &&& forall|i: int| 1 <= i < t.len() - 1 ==> is_reset_set_read(#[trigger] t[i], a)
    &&& is_reset_clear_read(t[t.len() - 1], a)
}

/// The trace of a reset wait at the known address `a` that a bus fault cut
/// short: nothing yet, or the reset write and reads that all still showed
/// the reset bit.
pub open spec fn reset_wait_prefix(t: Seq<SmiOp>, a: u8) -> bool {
    ||| t.len() == 0
    ||| {
        &&& 1 <= t.len() <= RESET_WAIT_POLLS + 1
        &&& t[0] == reset_write(a)
        &&& forall|i: int| 1 <= i < t.len() ==> is_reset_set_read(#[trigger] t[i], a)
    }
}

/// The trace of a reset wait at the known address `a` that exhausted its
/// poll budget: every read still showed the reset bit.
pub open spec fn reset_wait_exhausted(t: Seq<SmiOp>, a: u8) -> bool {
    &&& t.len() == RESET_WAIT_POLLS + 1
    &&& t[0] == reset_write(a)
    &&& forall|i: int| 1 <= i < t.len() ==> is_reset_set_read(#[trigger] t[i], a)
}

/// The operations a call appended to a trace that began as `pre`.
pub open spec fn appended(pre: Seq<SmiOp>, post: Seq<SmiOp>) -> Seq<SmiOp> {
    post.skip(pre.len() as int)
}

/// Auto-negotiation has completed.
pub open spec fn aneg_done(bmsr: u16) -> bool {
    bmsr & BMSR_ANDONE != 0
}

/// The link is up.
pub open spec fn link_up(bmsr: u16) -> bool {
    bmsr & BMSR_UP != 0
}

/// The five writes of a successful initialisation of the device at `a`:
/// a composite write of zero to the wake-up register, then one basic mode
/// control write that enables, restarts and speeds up auto-negotiation.
pub open spec fn init_ops(a: u8) -> Seq<SmiOp> {
    c45_write_ops(a, C45 { devad: Mmd(regs::PCS), regnum: WUCSR }, 0).push(
        write_op(a, regs::BMCR, BMCR_AN | BMCR_ANRST | BMCR_100M),
    )
}

/// The trace and result of a successful link poll of the device at `a`:
/// one status read that already decides "down", or the three reads whose
/// shared ability word resolves the technology.
pub open spec fn poll_ok_trace(pre: Seq<SmiOp>, post: Seq<SmiOp>, a: u8, st: LinkStatus) -> bool {
    ||| (exists|bmsr: u16|
        {
            &&& !(aneg_done(bmsr) && link_up(bmsr))
            &&& post == pre.push(#[trigger] read_op(a, regs::BMSR, bmsr))
            &&& st == LinkStatus::Down
        })
    ||| (exists|bmsr: u16, adv: u16, lpa: u16|
        {
            &&& aneg_done(bmsr) && link_up(bmsr)
            &&& post == pre + seq![
                #[trigger] read_op(a, regs::BMSR, bmsr),
                #[trigger] read_op(a, regs::ADVERTISE, adv),
                #[trigger] read_op(a, regs::LPA, lpa),
            ]
            &&& st == link_from_nego(adv & lpa)
        })
}

/// The trace of a link poll of the device at `a` that a bus fault cut
/// short: the reads acknowledged before the failing one.
pub open spec fn poll_err_trace(pre: Seq<SmiOp>, post: Seq<SmiOp>, a: u8) -> bool {
    ||| post == pre
    ||| (exists|bmsr: u16|
        {
            &&& aneg_done(bmsr) && link_up(bmsr)
            &&& post == pre.push(#[trigger] read_op(a, regs::BMSR, bmsr))
        })
    ||| (exists|bmsr: u16, adv: u16|
        {
            &&& aneg_done(bmsr) && link_up(bmsr)
            &&& post == pre + seq![
                #[trigger] read_op(a, regs::BMSR, bmsr),
                #[trigger] read_op(a, regs::ADVERTISE, adv),
            ]
        })
}

/// Generic SMI Ethernet PHY driver.
pub struct GenericPhy {
    /// The device's bus address: `None` until discovery resolves it.
    pub addr: Option<u8>,
    /// Pacing interval of a link poll, in time units.
    pub poll_interval: u64,
}

impl GenericPhy {
    /// The driver never holds a bus address outside the 5-bit space.
    pub open spec fn wf(&self) -> bool {
        self.addr matches Some(a) ==> a < 32
    }

    /// Construct the PHY driver with the known bus address `phy_addr`,
    /// which must lie in the 5-bit address space.
    pub fn new(phy_addr: u8) -> (r: Self)
        requires
            phy_addr < 32,
        ensures
            r.addr == Some(phy_addr),
            r.poll_interval == DEFAULT_POLL_INTERVAL,
    {
        GenericPhy { addr: Some(phy_addr), poll_interval: DEFAULT_POLL_INTERVAL }
    }

    /// Construct the PHY driver without an address; the first reset probes
    /// all addresses from 0 to 31 and adopts the first that responds.
    pub fn new_auto() -> (r: Self)
        ensures
            r.addr is None,
            r.poll_interval == DEFAULT_POLL_INTERVAL,
    {
        GenericPhy { addr: None, poll_interval: DEFAULT_POLL_INTERVAL }
    }

    /// Set the pacing interval of a link poll, in time units.
    pub fn set_poll_interval(&mut self, poll_interval: u64)
        ensures
            final(self).poll_interval == poll_interval,
            final(self).addr == old(self).addr,
    {
        self.poll_interval = poll_interval
    }
}

impl Phy for GenericPhy {
    open spec fn inv(&self) -> bool {
        self.wf()
    }

    open spec fn ready(&self) -> bool {
        self.addr is Some
    }

    /// Reset the PHY. At a known address: request the reset, then poll the
    /// basic mode control register until its reset bit reads clear. Without
    /// an address: probe each candidate address in ascending order, giving
    /// each [`DISCOVERY_ATTEMPTS`] paced reads to clear its reset bit, and
    /// adopt the first that does; a candidate that never answers is treated
    /// as absent, but a bus fault anywhere aborts at once.
    fn phy_reset<S: StationManagement, D: Delay>(&mut self, sm: &mut S, delay: &mut D) -> (r:
        Result<(), ResetError<S::Error>>)
        ensures
            final(self).poll_interval == old(self).poll_interval,
            old(sm).ops().is_prefix_of(final(sm).ops()),
            old(self).addr matches Some(a) ==> {
                &&& *final(self) == *old(self)
                &&& (r is Ok ==> reset_wait_trace(appended(old(sm).ops(), final(sm).ops()), a))
                &&& (r matches Err(e) ==> {
                    &&& (e is Bus ==> reset_wait_prefix(appended(old(sm).ops(), final(sm).ops()), a))
                    &&& (e is NoPhyFound ==> reset_wait_exhausted(
                        appended(old(sm).ops(), final(sm).ops()),
                        a,
                    ))
                })
            },
            old(self).addr is None ==> {
                &&& (r is Ok ==> {
                    &&& final(self).addr matches Some(a)
                    &&& a < 32
                    &&& discovery_success(appended(old(sm).ops(), final(sm).ops()), a)
                })
                &&& (r matches Err(e) ==> {
                    &&& *final(self) == *old(self)
                    &&& (e is Bus ==> discovery_aborted(appended(old(sm).ops(), final(sm).ops())))
                    &&& (e is NoPhyFound ==> exhausted_below(
                        appended(old(sm).ops(), final(sm).ops()),
                        32,
                    ))
                })
            },
    {
        match self.addr {
            Some(a) => {
                match sm.smi_write(a, C22(regs::BMCR), BMCR_RESET) {
                    Ok(()) => (),
                    Err(e) => {
                        proof {
                            assert(appended(old(sm).ops(), sm.ops()) =~= Seq::<SmiOp>::empty());
                        }
                        return Err(ResetError::Bus(e));
                    },
                }

                let mut polls: u64 = 0;
                #[verifier::loop_isolation(false)]
                while polls < RESET_WAIT_POLLS
                    invariant
                        polls <= RESET_WAIT_POLLS,
                        sm.ops().len() == old(sm).ops().len() + 1 + polls,
                        sm.ops().take(old(sm).ops().len() as int) == old(sm).ops(),
                        sm.ops()[old(sm).ops().len() as int] == reset_write(a),
                        forall|i: int|
                            old(sm).ops().len() + 1 <= i < sm.ops().len()
                                ==> is_reset_set_read(#[trigger] sm.ops()[i], a),
                    decreases RESET_WAIT_POLLS - polls,
                {
                    match sm.smi_read(a, C22(regs::BMCR)) {
                        Ok(v) => {
                            if v & BMCR_RESET != BMCR_RESET {
                                proof {
                                    let pre = old(sm).ops();
                                    assert(sm.ops().take(pre.len() as int) =~= pre);
                                    assert(reset_wait_trace(appended(pre, sm.ops()), a));
                                }
                                return Ok(());
                            }
                        },
                        Err(e) => {
                            proof {
                                let pre = old(sm).ops();
                                assert(reset_wait_prefix(appended(pre, sm.ops()), a));
                            }
                            return Err(ResetError::Bus(e));
                        },
                    }
                    proof {
                        assert(sm.ops().take(old(sm).ops().len() as int) =~= old(sm).ops());
                    }
                    polls = polls + 1;
                }
                proof {
                    assert(reset_wait_exhausted(appended(old(sm).ops(), sm.ops()), a));
                }
                Err(ResetError::NoPhyFound)
            },
            None => {
                let ghost pre = old(sm).ops();
                let ghost pl: int = pre.len() as int;
                let mut addr: u8 = 0;
                #[verifier::loop_isolation(false)]
                while addr < 32
                    invariant
                        addr <= 32,
                        *self == *old(self),
                        sm.ops().len() == pl + (DISCOVERY_ATTEMPTS + 1) * addr,
                        sm.ops().take(pl) == pre,
                        exhausted_below(sm.ops().skip(pl), addr as int),
                    decreases 32 - addr,
                {
                    let ghost base: int = pl + (DISCOVERY_ATTEMPTS + 1) * addr;
                    let ghost done = sm.ops().skip(pl);
                    match sm.smi_write(addr, C22(regs::BMCR), BMCR_RESET) {
                        Ok(()) => (),
                        Err(e) => {
                            proof {
                                let seg = appended(pre, sm.ops());
                                assert(seg.take((DISCOVERY_ATTEMPTS + 1) * addr as int) =~= seg);
                                assert(probe_prefix(
                                    seg.skip((DISCOVERY_ATTEMPTS + 1) * addr as int),
                                    addr,
                                ));
                                assert(discovery_aborted(seg));
                            }
                            return Err(ResetError::Bus(e));
                        },
                    }
                    proof {
                        assert(sm.ops().take(pl) =~= pre);
                        assert(sm.ops().subrange(pl, base) =~= done);
                    }

                    let mut attempt: u64 = 0;
                    #[verifier::loop_isolation(false)]
                    while attempt < DISCOVERY_ATTEMPTS
                        invariant
                            attempt <= DISCOVERY_ATTEMPTS,
                            addr < 32,
                            *self == *old(self),
                            base == pl + (DISCOVERY_ATTEMPTS + 1) * addr,
                            sm.ops().len() == base + 1 + attempt,
                            sm.ops().take(pl) == pre,
                            sm.ops().subrange(pl, base) == done,
                            exhausted_below(done, addr as int),
                            sm.ops()[base] == reset_write(addr),
                            forall|i: int|
                                base + 1 <= i < sm.ops().len() ==> is_reset_set_read(
                                    #[trigger] sm.ops()[i],
                                    addr,
                                ),
                        decreases DISCOVERY_ATTEMPTS - attempt,
                    {
                        match sm.smi_read(addr, C22(regs::BMCR)) {
                            Ok(v) => {
                                if v & BMCR_RESET != BMCR_RESET {
                                    self.addr = Some(addr);
                                    proof {
                                        let seg = appended(pre, sm.ops());
                                        assert(sm.ops().take(pl) =~= pre);
                                        assert(seg.take((DISCOVERY_ATTEMPTS + 1) * addr as int)
                                            =~= done);
                                        let t = seg.skip((DISCOVERY_ATTEMPTS + 1) * addr as int);
                                        assert(t.len() == attempt + 2);
                                        assert(t[0] == sm.ops()[base]);
                                        assert forall|i: int|
                                            1 <= i < t.len() - 1 implies is_reset_set_read(
                                            #[trigger] t[i],
                                            addr,
                                        ) by {
                                            assert(t[i] == sm.ops()[base + i]);
                                        }
                                        assert(t[t.len() - 1] == sm.ops()[sm.ops().len() - 1]);
                                        assert(success_probe(t, addr));
                                        assert(discovery_success(seg, addr));
                                    }
                                    return Ok(());
                                }
                            },
                            Err(e) => {
                                proof {
                                    let seg = appended(pre, sm.ops());
                                    assert(seg.take((DISCOVERY_ATTEMPTS + 1) * addr as int)
                                        =~= done);
                                    let t = seg.skip((DISCOVERY_ATTEMPTS + 1) * addr as int);
                                    assert(t.len() == 1 + attempt);
                                    assert(t[0] == sm.ops()[base]);
                                    assert forall|i: int| 1 <= i < t.len() implies is_reset_set_read(
                                        #[trigger] t[i],
                                        addr,
                                    ) by {
                                        assert(t[i] == sm.ops()[base + i]);
                                    }
                                    assert(probe_prefix(t, addr));
                                    assert(discovery_aborted(seg));
                                }
                                return Err(ResetError::Bus(e));
                            },
                        }
                        delay.delay(DISCOVERY_RETRY_DELAY);
                        proof {
                            assert(sm.ops().take(pl) =~= pre);
                            assert(sm.ops().subrange(pl, base) =~= done);
                        }
                        attempt = attempt + 1;
                    }
                    proof {
                        let seg = appended(pre, sm.ops());
                        let block = seg.skip((DISCOVERY_ATTEMPTS + 1) * addr as int);
                        assert(seg.take((DISCOVERY_ATTEMPTS + 1) * addr as int) =~= done);
                        assert(block.len() == DISCOVERY_ATTEMPTS + 1);
                        assert(block[0] == sm.ops()[base]);
                        assert forall|i: int| 1 <= i < block.len() implies is_reset_set_read(
                            #[trigger] block[i],
                            addr,
                        ) by {
                            assert(block[i] == sm.ops()[base + i]);
                        }
                        assert(failed_probe(block, addr));
                        lemma_exhausted_extend(done, block, addr);
                        assert(done + block =~= sm.ops().skip(pl));
                    }
                    addr = addr + 1;
                }
                Err(ResetError::NoPhyFound)
            },
        }
    }
    /// Initialise the PHY: clear any latched wake-up condition through the
    /// Clause 45 wake-up register, then enable, restart and speed up
    /// auto-negotiation in one basic mode control write. The second step is
    /// not attempted if the first fails.
    fn phy_init<S: StationManagement>(&mut self, sm: &mut S) -> (r: Result<(), S::Error>)
        ensures
            *final(self) == *old(self),
            old(sm).ops().is_prefix_of(final(sm).ops()),
            old(self).addr matches Some(a) ==> {
                &&& (r is Ok ==> final(sm).ops() == old(sm).ops() + init_ops(a))
                &&& (r is Err ==> exists|k: int|
                    0 <= k <= 4 && final(sm).ops() == old(sm).ops() + #[trigger] init_ops(a).take(
                        k,
                    ))
            },
    {
        let a = self.addr.unwrap();

        match sm.smi_write_mmd(a, C45::new(Mmd(regs::PCS), WUCSR), 0) {
            Ok(()) => (),
            Err(e) => {
                proof {
                    let reg = C45 { devad: Mmd(regs::PCS), regnum: WUCSR };
                    let k = choose|k: int|
                        0 <= k <= 3 && sm.ops() == old(sm).ops() + #[trigger] c45_write_ops(
                            a,
                            reg,
                            0,
                        ).take(k);
                    assert(init_ops(a).take(k) =~= c45_write_ops(a, reg, 0).take(k));
                    assert(sm.ops().take(old(sm).ops().len() as int) =~= old(sm).ops());
                }
                return Err(e);
            },
        }

        match sm.smi_write(a, C22(regs::BMCR), BMCR_AN | BMCR_ANRST | BMCR_100M) {
            Ok(()) => {
                proof {
                    assert(sm.ops() =~= old(sm).ops() + init_ops(a));
                    assert(sm.ops().take(old(sm).ops().len() as int) =~= old(sm).ops());
                }
                Ok(())
            },
            Err(e) => {
                proof {
                    let reg = C45 { devad: Mmd(regs::PCS), regnum: WUCSR };
                    assert(init_ops(a).take(4) =~= c45_write_ops(a, reg, 0));
                    assert(sm.ops() == old(sm).ops() + init_ops(a).take(4));
                    assert(sm.ops().take(old(sm).ops().len() as int) =~= old(sm).ops());
                }
                Err(e)
            },
        }
    }

    /// Poll the link: pace by the configured interval, read the basic mode
    /// status register, and report down while auto-negotiation is still
    /// running or the link is not up; otherwise read the local and partner
    /// ability registers and resolve their shared word. Each call is a
    /// fresh read, no state is kept between polls.
    fn poll_link<S: StationManagement, D: Delay>(&mut self, sm: &mut S, delay: &mut D) -> (r:
        Result<LinkStatus, S::Error>)
        ensures
            *final(self) == *old(self),
            old(sm).ops().is_prefix_of(final(sm).ops()),
            old(self).addr matches Some(a) ==> {
                &&& (r matches Ok(st) ==> poll_ok_trace(old(sm).ops(), final(sm).ops(), a, st))
                &&& (r is Err ==> poll_err_trace(old(sm).ops(), final(sm).ops(), a))
            },
    {
        let a = self.addr.unwrap();

        delay.delay(self.poll_interval);

        let bmsr = match sm.smi_read(a, C22(regs::BMSR)) {
            Ok(v) => v,
            Err(e) => {
                return Err(e);
            },
        };

        // No link without auto-negotiation.
        if bmsr & BMSR_ANDONE == 0 {
            proof {
                assert(sm.ops() == old(sm).ops().push(read_op(a, regs::BMSR, bmsr)));
                assert(sm.ops().take(old(sm).ops().len() as int) =~= old(sm).ops());
            }
            return Ok(LinkStatus::Down);
        }
        // No link if link is down.
        if bmsr & BMSR_UP == 0 {
            proof {
                assert(sm.ops() == old(sm).ops().push(read_op(a, regs::BMSR, bmsr)));
                assert(sm.ops().take(old(sm).ops().len() as int) =~= old(sm).ops());
            }
            return Ok(LinkStatus::Down);
        }

        let advertising = match sm.smi_read(a, C22(regs::ADVERTISE)) {
            Ok(v) => v,
            Err(e) => {
                proof {
                    assert(sm.ops() == old(sm).ops().push(read_op(a, regs::BMSR, bmsr)));
                    assert(sm.ops().take(old(sm).ops().len() as int) =~= old(sm).ops());
                }
                return Err(e);
            },
        };

        let lpa = match sm.smi_read(a, C22(regs::LPA)) {
            Ok(v) => v,
            Err(e) => {
                proof {
                    assert(sm.ops() =~= old(sm).ops() + seq![
                        read_op(a, regs::BMSR, bmsr),
                        read_op(a, regs::ADVERTISE, advertising),
                    ]);
                    assert(sm.ops().take(old(sm).ops().len() as int) =~= old(sm).ops());
                }
                return Err(e);
            },
        };

        let nego = advertising & lpa;
        let st = resolve_link(nego);
        proof {
            assert(sm.ops() =~= old(sm).ops() + seq![
                read_op(a, regs::BMSR, bmsr),
                read_op(a, regs::ADVERTISE, advertising),
                read_op(a, regs::LPA, lpa),
            ]);
            assert(sm.ops().take(old(sm).ops().len() as int) =~= old(sm).ops());
        }
        Ok(st)
    }
}

/// Extending the trace of an exhausted discovery by one more failed probe
/// covers one more candidate address.
proof fn lemma_exhausted_extend(t: Seq<SmiOp>, b: Seq<SmiOp>, a: u8)
    requires
        exhausted_below(t, a as int),
        failed_probe(b, a),
    ensures
        exhausted_below(t + b, a as int + 1),
{
    let u = t + b;
    assert(u.take(u.len() - (DISCOVERY_ATTEMPTS + 1)) =~= t);
    assert(u.skip(u.len() - (DISCOVERY_ATTEMPTS + 1)) =~= b);
}

/// The bus address an operation went to.
pub open spec fn op_addr(op: SmiOp) -> u8 {
    match op {
        SmiOp::Read { phy_addr, reg: _, val: _ } => phy_addr,
        SmiOp::Write { phy_addr, reg: _, val: _ } => phy_addr,
    }
}

/// Every operation of an exhausted-discovery trace went to one of the
/// candidate addresses it covers.
proof fn lemma_exhausted_addrs(t: Seq<SmiOp>, n: int)
    requires
        exhausted_below(t, n),
        n <= 256,
    ensures
        forall|i: int| 0 <= i < t.len() ==> op_addr(#[trigger] t[i]) < n,
    decreases n,
{
    if n <= 0 {
    } else {
        let front = t.take(t.len() - (DISCOVERY_ATTEMPTS + 1));
        let block = t.skip(t.len() - (DISCOVERY_ATTEMPTS + 1));
        lemma_exhausted_addrs(front, n - 1);
        assert forall|i: int| 0 <= i < t.len() implies op_addr(#[trigger] t[i]) < n by {
            if i < t.len() - (DISCOVERY_ATTEMPTS + 1) {
                assert(t[i] == front[i]);
            } else {
                assert(t[i] == block[i - (t.len() - (DISCOVERY_ATTEMPTS + 1))]);
            }
        }
    }
}

/// Discovery never talks past the address it resolves: in a trace that
/// resolved address `a`, every operation went to an address at or below
/// `a`, so the candidates above `a` see no operation at all.
pub proof fn lemma_discovery_stops_at_resolved(t: Seq<SmiOp>, a: u8)
    requires
        discovery_success(t, a),
    ensures
        forall|i: int| 0 <= i < t.len() ==> op_addr(#[trigger] t[i]) <= a,
{
    let front = t.take((DISCOVERY_ATTEMPTS + 1) * a as int);
    let tail = t.skip((DISCOVERY_ATTEMPTS + 1) * a as int);
    lemma_exhausted_addrs(front, a as int);
    assert forall|i: int| 0 <= i < t.len() implies op_addr(#[trigger] t[i]) <= a by {
        if i < (DISCOVERY_ATTEMPTS + 1) * a {
            assert(t[i] == front[i]);
        } else {
            let j = i - (DISCOVERY_ATTEMPTS + 1) * a;
            assert(t[i] == tail[j]);
            if j == 0 {
            } else if j < tail.len() - 1 {
                assert(is_reset_set_read(tail[j], a));
            } else {
                assert(is_reset_clear_read(tail[j], a));
            }
        }
    }
}

/// How many of the operations of a trace are reads, that is, poll
/// attempts rather than reset requests.
pub open spec fn read_count(t: Seq<SmiOp>) -> int
    decreases t.len(),
{
    if t.len() == 0 {
        0
    } else {
        read_count(t.drop_last()) + if t.last() is Read {
            1int
        } else {
            0int
        }
    }
}

/// Read counts add up over concatenation.
proof fn lemma_read_count_concat(s: Seq<SmiOp>, t: Seq<SmiOp>)
    ensures
        read_count(s + t) == read_count(s) + read_count(t),
    decreases t.len(),
{
    if t.len() == 0 {
        assert(s + t =~= s);
    } else {
        lemma_read_count_concat(s, t.drop_last());
        assert((s + t).drop_last() =~= s + t.drop_last());
        assert((s + t).last() == t.last());
    }
}

/// A trace that starts with one write and goes on with reads holds one
/// read per operation after the write.
proof fn lemma_read_count_probe(t: Seq<SmiOp>)
    requires
        t.len() >= 1,
        t[0] is Write,
        forall|i: int| 1 <= i < t.len() ==> #[trigger] t[i] is Read,
    ensures
        read_count(t) == t.len() - 1,
    decreases t.len(),
{
    assert(read_count(t) == read_count(t.drop_last()) + if t.last() is Read {
        1int
    } else {
        0int
    });
    if t.len() == 1 {
        assert(t.drop_last().len() == 0);
        assert(read_count(t.drop_last()) == 0);
        assert(t.last() == t[0]);
    } else {
        let s = t.drop_last();
        assert(s[0] == t[0]);
        assert forall|i: int| 1 <= i < s.len() implies #[trigger] s[i] is Read by {
            assert(s[i] == t[i]);
        }
        lemma_read_count_probe(s);
        assert(t.last() == t[t.len() - 1]);
    }
}

/// The cost of an exhausted discovery over the first `n` candidates: one
/// reset write and [`DISCOVERY_ATTEMPTS`] poll reads per candidate.
proof fn lemma_exhausted_cost(t: Seq<SmiOp>, n: int)
    requires
        exhausted_below(t, n),
        0 <= n,
    ensures
        t.len() == (DISCOVERY_ATTEMPTS + 1) * n,
        read_count(t) == DISCOVERY_ATTEMPTS * n,
    decreases n,
{
    if n <= 0 {
    } else {
        let front = t.take(t.len() - (DISCOVERY_ATTEMPTS + 1));
        let block = t.skip(t.len() - (DISCOVERY_ATTEMPTS + 1));
        lemma_exhausted_cost(front, n - 1);
        assert forall|i: int| 1 <= i < block.len() implies #[trigger] block[i] is Read by {
            assert(is_reset_set_read(block[i], (n - 1) as u8));
        }
        lemma_read_count_probe(block);
        lemma_read_count_concat(front, block);
        assert(front + block =~= t);
    }
}

/// A discovery that found no device polled every candidate fully: its
/// trace holds exactly 32 times [`DISCOVERY_ATTEMPTS`] reads, one
/// attempt budget per candidate address, beside the 32 reset writes.
pub proof fn lemma_failed_discovery_cost(t: Seq<SmiOp>)
    requires
        exhausted_below(t, 32),
    ensures
        t.len() == 32 * (DISCOVERY_ATTEMPTS + 1),
        read_count(t) == 32 * DISCOVERY_ATTEMPTS,
{
    lemma_exhausted_cost(t, 32);
}

} // verus!
