//! The AXI firewall: fault-status inspection and the block / unblock
//! sequence for its monitored interconnect (MI) side.
use crate::transport::{
    extends_by, is_read_at, is_write_of, issued_since, read_each, read_result, reads_each,
    write_result, Access, RegisterAccess, TransportError,
};
use vstd::prelude::*;

verus! {

/// The value written to the soft-fault control register to block the MI side.
pub const MI_BLOCK_MASK: u32 = 0x0100_0100;

/// The value written to the unblock control register to release the MI side.
pub const MI_UNBLOCK_PULSE: u32 = 1;

#[derive(Clone, Copy, Debug, PartialEq, Eq, Structural)]
pub enum Error {
    /// A register read or write failed.
    TransportFailed(TransportError),
    /// Clearing the soft-fault control failed during unblocking, so the
    /// unblock pulse was withheld.
    UnsafeSequenceAborted(TransportError),
}

pub type Result<T> = core::result::Result<T, Error>;

/// AXI firewall registers
#[derive(Clone, Copy, Debug, PartialEq, Eq, Structural)]
pub enum AxiFirewallReg {
    MiSideFaultStatus,
    MiSideSoftFaultControl,
    MiSideUnblockControl,
    IpVersion,
}

impl AxiFirewallReg {
    pub open spec fn spec_offset(self) -> u64 {
        match self {
            AxiFirewallReg::MiSideFaultStatus => 0x0,
            AxiFirewallReg::MiSideSoftFaultControl => 0x4,
            AxiFirewallReg::MiSideUnblockControl => 0x8,
            AxiFirewallReg::IpVersion => 0x10,
        }
    }

    /// The register's byte offset from the firewall's base.
    #[verifier::when_used_as_spec(spec_offset)]
    pub fn offset(self) -> (r: u64)
        ensures
            r == self.spec_offset(),
    {
        match self {
            AxiFirewallReg::MiSideFaultStatus => 0x0,
            AxiFirewallReg::MiSideSoftFaultControl => 0x4,
            AxiFirewallReg::MiSideUnblockControl => 0x8,
            AxiFirewallReg::IpVersion => 0x10,
        }
    }

    /// Every firewall register, in offset order.
    pub fn all() -> (r: Vec<AxiFirewallReg>)
        ensures
            r@ == all_axi_firewall_regs(),
    {
        vec![
            AxiFirewallReg::MiSideFaultStatus,
            AxiFirewallReg::MiSideSoftFaultControl,
            AxiFirewallReg::MiSideUnblockControl,
            AxiFirewallReg::IpVersion,
        ]
    }
}

pub open spec fn all_axi_firewall_regs() -> Seq<AxiFirewallReg> {
    seq![
        AxiFirewallReg::MiSideFaultStatus,
        AxiFirewallReg::MiSideSoftFaultControl,
        AxiFirewallReg::MiSideUnblockControl,
        AxiFirewallReg::IpVersion,
    ]
}

/// A transport outcome as the firewall reports it.
pub open spec fn lift_read(r: core::result::Result<u32, TransportError>) -> Result<u32> {
    match r {
        Ok(v) => Ok(v),
        Err(e) => Err(Error::TransportFailed(e)),
    }
}

/// A write outcome as the firewall reports it.
pub open spec fn lift_write(r: core::result::Result<(), TransportError>) -> Result<()> {
    match r {
        Ok(()) => Ok(()),
        Err(e) => Err(Error::TransportFailed(e)),
    }
}

/// The fault status that a read of the status register yields.
pub open spec fn fault_status_of(a: Access) -> Result<u32> {
    lift_read(read_result(a))
}

/// Whether the MI side is blocked, judged from a read of the status register.
pub open spec fn blocked_of(a: Access) -> Result<bool> {
    match read_result(a) {
        Ok(v) => Ok(v != 0),
        Err(e) => Err(Error::TransportFailed(e)),
    }
}

pub trait AxiFirewallOps: RegisterAccess {
    /// Reads the value of an AXI firewall register
    fn get_axi_firewall_reg(&mut self, reg: AxiFirewallReg) -> (r: Result<u32>)
        ensures
            extends_by(final(self).accesses(), old(self).accesses(), 1),
            is_read_at(final(self).accesses().last(), reg.spec_offset()),
            r == lift_read(read_result(final(self).accesses().last())),
    ;

    /// Writes the value of an AXI firewall register
    fn set_axi_firewall_reg(&mut self, reg: AxiFirewallReg, value: u32) -> (r: Result<()>)
        ensures
            extends_by(final(self).accesses(), old(self).accesses(), 1),
            is_write_of(final(self).accesses().last(), reg.spec_offset(), value),
            r == lift_write(write_result(final(self).accesses().last())),
    ;

    /// Reads the MI side's fault status: one read of `MiSideFaultStatus`.
    fn get_mi_fault_status(&mut self) -> (r: Result<u32>)
        ensures
            extends_by(final(self).accesses(), old(self).accesses(), 1),
            is_read_at(final(self).accesses().last(), 0x0),
            r == fault_status_of(final(self).accesses().last()),
    {
        self.get_axi_firewall_reg(AxiFirewallReg::MiSideFaultStatus)
    }

    /// Whether the fault status read now is nonzero: one read of `MiSideFaultStatus`.
    fn mi_is_blocked(&mut self) -> (r: Result<bool>)
        ensures
            extends_by(final(self).accesses(), old(self).accesses(), 1),
            is_read_at(final(self).accesses().last(), 0x0),
            r == blocked_of(final(self).accesses().last()),
    {
        let status = self.get_mi_fault_status();
        match status {
            Ok(v) => Ok(v != 0),
            Err(e) => Err(e),
        }
    }

    /// Blocks the MI side: one write of the block mask to `MiSideSoftFaultControl`.
    fn block_mi(&mut self) -> (r: Result<()>)
        ensures
            extends_by(final(self).accesses(), old(self).accesses(), 1),
            is_write_of(final(self).accesses().last(), 0x4, MI_BLOCK_MASK),
            r == lift_write(write_result(final(self).accesses().last())),
    {
        self.set_axi_firewall_reg(AxiFirewallReg::MiSideSoftFaultControl, MI_BLOCK_MASK)
    }

    /// Unblocks the MI side: clears `MiSideSoftFaultControl`, then pulses
    /// `MiSideUnblockControl`. The pulse is issued only if the clear succeeded.
    fn unblock_mi(&mut self) -> (r: Result<()>)
        ensures
            ({
                let before = old(self).accesses();
                let after = final(self).accesses();
                let first = after[before.len() as int];
                &&& after.len() > before.len()
                &&& is_write_of(first, 0x4, 0)
                &&& match write_result(first) {
                    Err(e) => {
                        &&& extends_by(after, before, 1)
                        &&& r == Err::<(), Error>(Error::UnsafeSequenceAborted(e))
                    },
                    Ok(()) => {
                        &&& extends_by(after, before, 2)
                        &&& is_write_of(after.last(), 0x8, MI_UNBLOCK_PULSE)
                        &&& r == lift_write(write_result(after.last()))
                    },
                }
            }),
    {
        let cleared = self.set_axi_firewall_reg(AxiFirewallReg::MiSideSoftFaultControl, 0);
        match cleared {
            Err(Error::TransportFailed(e)) => Err(Error::UnsafeSequenceAborted(e)),
            Err(other) => Err(other),
            Ok(()) => {
                let ghost mid = self.accesses();
                let r = self.set_axi_firewall_reg(AxiFirewallReg::MiSideUnblockControl, MI_UNBLOCK_PULSE);
                proof {
                    assert(self.accesses().subrange(0, mid.len() as int) == mid);
                    assert(mid.subrange(0, old(self).accesses().len() as int) == old(self).accesses());
                    assert(self.accesses()[old(self).accesses().len() as int] == mid.last());
                    assert(self.accesses().subrange(0, old(self).accesses().len() as int)
                        =~= old(self).accesses());
                }
                r
            },
        }
    }

    /// Reads every firewall register once, in the order of `AxiFirewallReg::all`.
    fn get_all_axi_firewall_regs(&mut self) -> (r: Result<Vec<u32>>)
        ensures
            final(self).accesses().len() >= old(self).accesses().len(),
            final(self).accesses().subrange(0, old(self).accesses().len() as int)
                == old(self).accesses(),
            reads_each(
                issued_since(final(self).accesses(), old(self).accesses()),
                all_axi_firewall_regs().map_values(|reg: AxiFirewallReg| reg.spec_offset()),
                match r {
                    Ok(vals) => Ok(vals),
                    Err(Error::TransportFailed(e)) => Err(e),
                    Err(Error::UnsafeSequenceAborted(e)) => Err(e),
                },
            ),
            r matches Err(e) ==> e is TransportFailed,
    {
        let regs = AxiFirewallReg::all();
        let mut offsets: Vec<u64> = Vec::new();
        let mut i: usize = 0;
        while i < regs.len()
            invariant
                regs@ == all_axi_firewall_regs(),
                i <= regs.len(),
                offsets@ == regs@.subrange(0, i as int).map_values(
                    |reg: AxiFirewallReg| reg.spec_offset(),
                ),
            decreases regs.len() - i,
        {
            offsets.push(regs[i].offset());
            i = i + 1;
            proof {
                assert(offsets@ =~= regs@.subrange(0, i as int).map_values(
                    |reg: AxiFirewallReg| reg.spec_offset(),
                ));
            }
        }
        proof {
            assert(regs@.subrange(0, i as int) =~= regs@);
        }
        match read_each(self, &offsets) {
            Ok(vals) => Ok(vals),
            Err(e) => Err(Error::TransportFailed(e)),
        }
    }

    /// Reads the firewall IP's version: one read of `IpVersion`.
    fn get_ip_version(&mut self) -> (r: Result<u32>)
        ensures
            extends_by(final(self).accesses(), old(self).accesses(), 1),
            is_read_at(final(self).accesses().last(), 0x10),
            r == lift_read(read_result(final(self).accesses().last())),
    {
        self.get_axi_firewall_reg(AxiFirewallReg::IpVersion)
    }
}

impl<T: RegisterAccess> AxiFirewallOps for T {
    fn get_axi_firewall_reg(&mut self, reg: AxiFirewallReg) -> (r: Result<u32>) {
        let r = self.read_u32(reg.offset());
        proof {
            assert(self.accesses().subrange(0, old(self).accesses().len() as int)
                =~= old(self).accesses());
        }
        match r {
            Ok(v) => Ok(v),
            Err(e) => Err(Error::TransportFailed(e)),
        }
    }

    fn set_axi_firewall_reg(&mut self, reg: AxiFirewallReg, value: u32) -> (r: Result<()>) {
        let r = self.write_u32(reg.offset(), value);
        proof {
            assert(self.accesses().subrange(0, old(self).accesses().len() as int)
                =~= old(self).accesses());
        }
        match r {
            Ok(()) => Ok(()),
            Err(e) => Err(Error::TransportFailed(e)),
        }
    }
}

/// The value of the latest successful write to `MiSideSoftFaultControl`
/// among `accs`, or zero when there is none.
pub open spec fn last_control_value(accs: Seq<Access>) -> u32
    decreases accs.len(),
{
    if accs.len() == 0 {
        0
    } else {
        match accs.last() {
            Access::Write { offset, value, status: Ok(()) } if offset == 0x4 => value,
            _ => last_control_value(accs.drop_last()),
        }
    }
}

/// A device whose fault status echoes the soft-fault control: every
/// successful read of `MiSideFaultStatus` returns the value most recently
/// written to `MiSideSoftFaultControl`.
pub open spec fn echoes_control(accs: Seq<Access>) -> bool {
    forall|i: int|
        0 <= i < accs.len() && is_read_at(accs[i], 0x0) && #[trigger] read_result(accs[i]) is Ok
            ==> read_result(accs[i]) == Ok::<u32, TransportError>(
            last_control_value(accs.take(i)),
        )
}

/// On a device whose fault status echoes the soft-fault control, a
/// successful `block_mi` followed at once by `get_mi_fault_status` reads a
/// nonzero status, so the MI side reports blocked.
pub proof fn lemma_block_then_status_blocked(accs: Seq<Access>)
    requires
        echoes_control(accs),
        accs.len() >= 2,
        is_write_of(accs[accs.len() - 2], 0x4, MI_BLOCK_MASK),
        write_result(accs[accs.len() - 2]) is Ok,
        is_read_at(accs.last(), 0x0),
        fault_status_of(accs.last()) is Ok,
    ensures
        fault_status_of(accs.last()) matches Ok(v) && v != 0,
        blocked_of(accs.last()) == Ok::<bool, Error>(true),
{
    let i = accs.len() - 1;
    assert(read_result(accs[i]) is Ok);
    let prefix = accs.take(i);
    assert(prefix.last() == accs[accs.len() - 2]);
    assert(last_control_value(prefix) == MI_BLOCK_MASK);
}

/// `mi_is_blocked` reports blocked exactly when `get_mi_fault_status` would
/// report a nonzero status from the same read, and both report the same
/// transport failure.
pub proof fn lemma_blocked_iff_status_nonzero(a: Access)
    requires
        is_read_at(a, 0x0),
    ensures
        (blocked_of(a) == Ok::<bool, Error>(true)) <==> (fault_status_of(a) matches Ok(v) && v != 0),
        (blocked_of(a) == Ok::<bool, Error>(false)) <==> (fault_status_of(a) == Ok::<u32, Error>(0)),
        forall|e: Error| (blocked_of(a) == Err::<bool, Error>(e)) <==> (fault_status_of(a) == Err::<u32, Error>(e)),
{
}

/// Each firewall register has its own offset, and `AxiFirewallReg::all`
/// lists every register exactly once.
pub proof fn lemma_firewall_offsets_distinct()
    ensures
        forall|a: AxiFirewallReg, b: AxiFirewallReg|
            #[trigger] a.spec_offset() == #[trigger] b.spec_offset() ==> a == b,
        forall|a: AxiFirewallReg| all_axi_firewall_regs().contains(a),
        all_axi_firewall_regs().no_duplicates(),
{
    assert forall|a: AxiFirewallReg| all_axi_firewall_regs().contains(a) by {
        match a {
            AxiFirewallReg::MiSideFaultStatus => assert(all_axi_firewall_regs()[0] == a),
            AxiFirewallReg::MiSideSoftFaultControl => assert(all_axi_firewall_regs()[1] == a),
            AxiFirewallReg::MiSideUnblockControl => assert(all_axi_firewall_regs()[2] == a),
            AxiFirewallReg::IpVersion => assert(all_axi_firewall_regs()[3] == a),
        }
    }
}

} // verus!
