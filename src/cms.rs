//! The Card Management System (CMS): microcontroller start-up, the
//! host-status readiness poll, HBM temperature monitoring, and raw access to
//! its registers.
use crate::transport::{
    extends_by, is_read_at, is_write_of, issued_since, read_each, read_result, reads_each,
    write_result, Access, RegisterAccess, TransportError,
};
use vstd::prelude::*;

verus! {

/// The value written to `MicroblazeResetN` to release the CMS microcontroller.
pub const MB_RESET_RELEASE: u32 = 1;

/// The `Control` value that enables HBM temperature monitoring (bit 27).
pub const HBM_TEMP_MONITOR_ENABLE: u32 = 0x0800_0000;

#[derive(Clone, Copy, Debug, PartialEq, Eq, Structural)]
pub enum DeviceError {
    /// A register read or write failed.
    TransportFailed(TransportError),
}

#[derive(Clone, Copy, Debug, PartialEq, Eq, Structural)]
pub enum ReadinessError {
    /// The deadline passed without the host status reporting ready.
    Timeout,
    /// A read of the host status register failed.
    TransportFailed(TransportError),
}

/// CMS registers; offsets are from the base of the CMS subsystem.
#[derive(Clone, Copy, Debug, PartialEq, Eq, Structural)]
pub enum CmsReg {
    MicroblazeResetN,
    RegMapId,
    FwVersion,
    Status,
    Error,
    ProfileName,
    Control,
    HbmTemp1Max,
    HbmTemp1Avg,
    HbmTemp1Ins,
    HostStatus2,
}

impl CmsReg {
    pub open spec fn spec_offset(self) -> u64 {
        match self {
            CmsReg::MicroblazeResetN => 0x2_0000,
            CmsReg::RegMapId => 0x2_8000,
            CmsReg::FwVersion => 0x2_8004,
            CmsReg::Status => 0x2_8008,
            CmsReg::Error => 0x2_800c,
            CmsReg::ProfileName => 0x2_8014,
            CmsReg::Control => 0x2_8018,
            CmsReg::HbmTemp1Max => 0x2_8260,
            CmsReg::HbmTemp1Avg => 0x2_8264,
            CmsReg::HbmTemp1Ins => 0x2_8268,
            CmsReg::HostStatus2 => 0x2_830c,
        }
    }

    /// The register's byte offset from the CMS base.
    #[verifier::when_used_as_spec(spec_offset)]
    pub fn offset(self) -> (r: u64)
        ensures
            r == self.spec_offset(),
    {
        match self {
            CmsReg::MicroblazeResetN => 0x2_0000,
            CmsReg::RegMapId => 0x2_8000,
            CmsReg::FwVersion => 0x2_8004,
            CmsReg::Status => 0x2_8008,
            CmsReg::Error => 0x2_800c,
            CmsReg::ProfileName => 0x2_8014,
            CmsReg::Control => 0x2_8018,
            CmsReg::HbmTemp1Max => 0x2_8260,
            CmsReg::HbmTemp1Avg => 0x2_8264,
            CmsReg::HbmTemp1Ins => 0x2_8268,
            CmsReg::HostStatus2 => 0x2_830c,
        }
    }

    /// Every CMS register, in offset order.
    pub fn all() -> (r: Vec<CmsReg>)
        ensures
            r@ == all_cms_regs(),
    {
        vec![
            CmsReg::MicroblazeResetN,
            CmsReg::RegMapId,
            CmsReg::FwVersion,
            CmsReg::Status,
            CmsReg::Error,
            CmsReg::ProfileName,
            CmsReg::Control,
            CmsReg::HbmTemp1Max,
            CmsReg::HbmTemp1Avg,
            CmsReg::HbmTemp1Ins,
            CmsReg::HostStatus2,
        ]
    }
}

pub open spec fn all_cms_regs() -> Seq<CmsReg> {
    seq![
        CmsReg::MicroblazeResetN,
        CmsReg::RegMapId,
        CmsReg::FwVersion,
        CmsReg::Status,
        CmsReg::Error,
        CmsReg::ProfileName,
        CmsReg::Control,
        CmsReg::HbmTemp1Max,
        CmsReg::HbmTemp1Avg,
        CmsReg::HbmTemp1Ins,
        CmsReg::HostStatus2,
    ]
}

/// The host status reports ready when its lowest bit is set.
pub open spec fn host_ready(status: u32) -> bool {
    status % 2 == 1
}

/// A successful read of the host status that did not report ready.
pub open spec fn not_ready_poll(a: Access) -> bool {
    read_result(a) matches Ok(v) && !host_ready(v)
}

pub open spec fn lift_device(r: Result<u32, TransportError>) -> Result<u32, DeviceError> {
    match r {
        Ok(v) => Ok(v),
        Err(e) => Err(DeviceError::TransportFailed(e)),
    }
}

pub open spec fn lift_device_write(r: Result<(), TransportError>) -> Result<(), DeviceError> {
    match r {
        Ok(()) => Ok(()),
        Err(e) => Err(DeviceError::TransportFailed(e)),
    }
}

/// A source of elapsed time for the readiness poll, in microseconds.
///
/// `micros` is the clock's current reading; readings never go back, and a
/// pause lets at least one microsecond pass.
pub trait PollClock {
    spec fn micros(&self) -> u64;

    fn now_micros(&mut self) -> (r: u64)
        ensures
            r == final(self).micros(),
            final(self).micros() >= old(self).micros(),
    ;

    /// Waits between two polls.
    fn pause(&mut self)
        requires
            old(self).micros() < u64::MAX,
        ensures
            final(self).micros() > old(self).micros(),
    ;
}

pub trait CardMgmtOps: RegisterAccess {
    /// Reads a CMS register: one read at its offset, value passed through as read.
    fn get_cms_reg(&mut self, reg: CmsReg) -> (r: Result<u32, DeviceError>)
        ensures
            extends_by(final(self).accesses(), old(self).accesses(), 1),
            is_read_at(final(self).accesses().last(), reg.spec_offset()),
            r == lift_device(read_result(final(self).accesses().last())),
    ;

    /// Writes a CMS register: one write at its offset.
    fn set_cms_reg(&mut self, reg: CmsReg, value: u32) -> (r: Result<(), DeviceError>)
        ensures
            extends_by(final(self).accesses(), old(self).accesses(), 1),
            is_write_of(final(self).accesses().last(), reg.spec_offset(), value),
            r == lift_device_write(write_result(final(self).accesses().last())),
    ;

    /// Releases the CMS microcontroller from reset, after which its registers
    /// become meaningful: one write to `MicroblazeResetN`.
    fn init_cms(&mut self) -> (r: Result<(), DeviceError>)
        ensures
            extends_by(final(self).accesses(), old(self).accesses(), 1),
            is_write_of(final(self).accesses().last(), 0x2_0000, MB_RESET_RELEASE),
            r == lift_device_write(write_result(final(self).accesses().last())),
    {
        self.set_cms_reg(CmsReg::MicroblazeResetN, MB_RESET_RELEASE)
    }

    /// Enables HBM temperature monitoring: one write to `Control`. Readings
    /// become valid only after a settle delay that the caller waits out.
    fn enable_hbm_temp_monitoring(&mut self) -> (r: Result<(), DeviceError>)
        ensures
            extends_by(final(self).accesses(), old(self).accesses(), 1),
            is_write_of(final(self).accesses().last(), 0x2_8018, HBM_TEMP_MONITOR_ENABLE),
            r == lift_device_write(write_result(final(self).accesses().last())),
    {
        self.set_cms_reg(CmsReg::Control, HBM_TEMP_MONITOR_ENABLE)
    }

    /// Polls `HostStatus2` until it reports ready, the transport fails, or
    /// more than `timeout_micros` have passed since the call began. The
    /// deadline is checked before every poll, and the clock pauses between
    /// polls, so the call ends for every timeout. Returns the microseconds
    /// elapsed when the poll that saw ready was issued.
    fn expect_ready_host_status<C: PollClock>(&mut self, clock: &mut C, timeout_micros: u64) -> (r:
        Result<u64, ReadinessError>)
        ensures
            ({
                let before = old(self).accesses();
                let after = final(self).accesses();
                let polls = issued_since(after, before);
                &&& after.len() > before.len()
                &&& after.subrange(0, before.len() as int) == before
                &&& forall|i: int| 0 <= i < polls.len() ==> #[trigger] is_read_at(polls[i], 0x2_830c)
                &&& forall|i: int| 0 <= i < polls.len() - 1 ==> #[trigger] not_ready_poll(polls[i])
                &&& (read_result(polls[0]) matches Ok(v) && host_ready(v)) ==> r == Ok::<
                    u64,
                    ReadinessError,
                >(0)
                &&& match r {
                    Ok(elapsed) => {
                        &&& elapsed <= timeout_micros
                        &&& read_result(polls.last()) matches Ok(v) && host_ready(v)
                    },
                    Err(ReadinessError::TransportFailed(e)) => read_result(polls.last()) == Err::<
                        u32,
                        TransportError,
                    >(e),
                    Err(ReadinessError::Timeout) => {
                        &&& not_ready_poll(polls.last())
                        &&& (final(clock).micros() - old(clock).micros() > timeout_micros
                            || final(clock).micros() == u64::MAX)
                    },
                }
            }),
    {
        let ghost before = self.accesses();
        let start = clock.now_micros();
        let mut elapsed: u64 = 0;
        loop
            invariant
                before == old(self).accesses(),
                self.accesses().len() >= before.len(),
                self.accesses().subrange(0, before.len() as int) == before,
                forall|i: int|
                    0 <= i < issued_since(self.accesses(), before).len() ==> #[trigger] is_read_at(
                        issued_since(self.accesses(), before)[i],
                        0x2_830c,
                    ),
                forall|i: int|
                    0 <= i < issued_since(self.accesses(), before).len() ==> #[trigger] not_ready_poll(
                        issued_since(self.accesses(), before)[i],
                    ),
                old(clock).micros() <= start,
                start <= clock.micros(),
                elapsed == clock.micros() - start,
                self.accesses().len() == before.len() ==> elapsed == 0,
            decreases u64::MAX - clock.micros(),
        {
            if elapsed > timeout_micros {
                proof {
                    let polls = issued_since(self.accesses(), before);
                    assert(is_read_at(polls[polls.len() - 1], 0x2_830c));
                    assert(is_read_at(polls[0], 0x2_830c));
                    assert(not_ready_poll(polls[polls.len() - 1]));
                    assert(not_ready_poll(polls[0]));
                }
                return Err(ReadinessError::Timeout);
            }
            let ghost prev = self.accesses();
            let status = self.read_u32(CmsReg::HostStatus2.offset());
            proof {
                assert(self.accesses().subrange(0, before.len() as int) =~= before);
                assert(issued_since(self.accesses(), before) =~= issued_since(prev, before).push(
                    self.accesses().last(),
                ));
                let polls = issued_since(self.accesses(), before);
                let earlier = issued_since(prev, before);
                assert(is_read_at(polls[polls.len() - 1], 0x2_830c));
                assert forall|i: int| 0 <= i < polls.len() - 1 implies #[trigger] not_ready_poll(
                    polls[i],
                ) && is_read_at(polls[i], 0x2_830c) by {
                    assert(polls[i] == earlier[i]);
                    assert(not_ready_poll(earlier[i]));
                    assert(is_read_at(earlier[i], 0x2_830c));
                }
                if earlier.len() > 0 {
                    assert(is_read_at(earlier[0], 0x2_830c));
                    assert(polls[0] == earlier[0]);
                    assert(not_ready_poll(polls[0]));
                }
            }
            match status {
                Err(e) => {
                    return Err(ReadinessError::TransportFailed(e));
                },
                Ok(v) => {
                    if v % 2 == 1 {
                        return Ok(elapsed);
                    }
                },
            }
            if elapsed == u64::MAX - start {
                return Err(ReadinessError::Timeout);
            }
            clock.pause();
            let now = clock.now_micros();
            elapsed = now - start;
        }
    }

    /// Reads every CMS register once, in the order of `CmsReg::all`.
    fn get_all_cms_regs(&mut self) -> (r: Result<Vec<u32>, DeviceError>)
        ensures
            final(self).accesses().len() >= old(self).accesses().len(),
            final(self).accesses().subrange(0, old(self).accesses().len() as int)
                == old(self).accesses(),
            reads_each(
                issued_since(final(self).accesses(), old(self).accesses()),
                all_cms_regs().map_values(|reg: CmsReg| reg.spec_offset()),
                match r {
                    Ok(vals) => Ok(vals),
                    Err(DeviceError::TransportFailed(e)) => Err(e),
                },
            ),
    {
        let regs = CmsReg::all();
        let mut offsets: Vec<u64> = Vec::new();
        let mut i: usize = 0;
        while i < regs.len()
            invariant
                regs@ == all_cms_regs(),
                i <= regs.len(),
                offsets@ == regs@.subrange(0, i as int).map_values(
                    |reg: CmsReg| reg.spec_offset(),
                ),
            decreases regs.len() - i,
        {
            offsets.push(regs[i].offset());
            i = i + 1;
            proof {
                assert(offsets@ =~= regs@.subrange(0, i as int).map_values(
                    |reg: CmsReg| reg.spec_offset(),
                ));
            }
        }
        proof {
            assert(regs@.subrange(0, i as int) =~= regs@);
        }
        match read_each(self, &offsets) {
            Ok(vals) => Ok(vals),
            Err(e) => Err(DeviceError::TransportFailed(e)),
        }
    }
}

impl<T: RegisterAccess> CardMgmtOps for T {
    fn get_cms_reg(&mut self, reg: CmsReg) -> (r: Result<u32, DeviceError>) {
        let r = self.read_u32(reg.offset());
        proof {
            assert(self.accesses().subrange(0, old(self).accesses().len() as int)
                =~= old(self).accesses());
        }
        match r {
            Ok(v) => Ok(v),
            Err(e) => Err(DeviceError::TransportFailed(e)),
        }
    }

    fn set_cms_reg(&mut self, reg: CmsReg, value: u32) -> (r: Result<(), DeviceError>) {
        let r = self.write_u32(reg.offset(), value);
        proof {
            assert(self.accesses().subrange(0, old(self).accesses().len() as int)
                =~= old(self).accesses());
        }
        match r {
            Ok(()) => Ok(()),
            Err(e) => Err(DeviceError::TransportFailed(e)),
        }
    }
}

/// Each CMS register has its own offset, and `CmsReg::all` lists every
/// register exactly once.
pub proof fn lemma_cms_offsets_distinct()
    ensures
        forall|a: CmsReg, b: CmsReg| #[trigger] a.spec_offset() == #[trigger] b.spec_offset() ==> a == b,
        forall|a: CmsReg| all_cms_regs().contains(a),
        all_cms_regs().no_duplicates(),
{
    assert forall|a: CmsReg| all_cms_regs().contains(a) by {
        let regs = all_cms_regs();
        match a {
            CmsReg::MicroblazeResetN => assert(regs[0] == a),
            CmsReg::RegMapId => assert(regs[1] == a),
            CmsReg::FwVersion => assert(regs[2] == a),
            CmsReg::Status => assert(regs[3] == a),
            CmsReg::Error => assert(regs[4] == a),
            CmsReg::ProfileName => assert(regs[5] == a),
            CmsReg::Control => assert(regs[6] == a),
            CmsReg::HbmTemp1Max => assert(regs[7] == a),
            CmsReg::HbmTemp1Avg => assert(regs[8] == a),
            CmsReg::HbmTemp1Ins => assert(regs[9] == a),
            CmsReg::HostStatus2 => assert(regs[10] == a),
        }
    }
}

} // verus!
