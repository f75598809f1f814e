use warp_devices::axi_firewall::{AxiFirewallOps, AxiFirewallReg, Error, MI_BLOCK_MASK};
use warp_devices::sim::{SimRegisters, INJECTED_FAILURE, NO_SUCH_REGISTER};
use warp_devices::transport::{Access, TransportError, REGISTER_WIDTH_BITS};

fn firewall() -> SimRegisters {
    SimRegisters::new(8)
}

#[test]
fn firewall_register_offsets_are_fixed() {
    let offsets: Vec<u64> = AxiFirewallReg::all().into_iter().map(|r| r.offset()).collect();
    assert_eq!(offsets, vec![0x0, 0x4, 0x8, 0x10]);
    assert_eq!(AxiFirewallReg::MiSideFaultStatus.offset(), 0x0);
    assert_eq!(AxiFirewallReg::MiSideSoftFaultControl.offset(), 0x4);
    assert_eq!(AxiFirewallReg::MiSideUnblockControl.offset(), 0x8);
    assert_eq!(AxiFirewallReg::IpVersion.offset(), 0x10);
    assert_eq!(REGISTER_WIDTH_BITS, 32);
    assert_eq!(std::mem::size_of::<u32>() * 8, REGISTER_WIDTH_BITS as usize);
}

#[test]
fn block_then_status_on_echoing_device_is_blocked() {
    let mut dev = firewall();
    dev.echo = Some((0x4, 0x0));
    assert_eq!(dev.block_mi(), Ok(()));
    let status = dev.get_mi_fault_status().unwrap();
    assert_ne!(status, 0);
    assert_eq!(status, MI_BLOCK_MASK);
    assert_eq!(dev.mi_is_blocked(), Ok(true));
}

#[test]
fn block_writes_mask_once() {
    let mut dev = firewall();
    assert_eq!(dev.block_mi(), Ok(()));
    assert_eq!(dev.block_mi(), Ok(()));
    assert_eq!(dev.word(0x4), Some(0x0100_0100));
    assert_eq!(
        dev.log,
        vec![
            Access::Write { offset: 0x4, value: 0x0100_0100, status: Ok(()) },
            Access::Write { offset: 0x4, value: 0x0100_0100, status: Ok(()) },
        ]
    );
}

#[test]
fn unblock_withholds_pulse_when_clear_fails() {
    let mut dev = firewall();
    dev.failing = Some(0x4);
    let err = TransportError { code: INJECTED_FAILURE };
    assert_eq!(dev.unblock_mi(), Err(Error::UnsafeSequenceAborted(err)));
    assert_eq!(dev.log, vec![Access::Write { offset: 0x4, value: 0, status: Err(err) }]);
    assert_eq!(dev.word(0x8), Some(0));
}

#[test]
fn unblock_clears_then_pulses() {
    let mut dev = firewall();
    dev.set_word(0x4, MI_BLOCK_MASK);
    assert_eq!(dev.unblock_mi(), Ok(()));
    assert_eq!(
        dev.log,
        vec![
            Access::Write { offset: 0x4, value: 0, status: Ok(()) },
            Access::Write { offset: 0x8, value: 1, status: Ok(()) },
        ]
    );
    assert_eq!(dev.word(0x4), Some(0));
    assert_eq!(dev.word(0x8), Some(1));
}

#[test]
fn unblock_reports_failed_pulse_as_transport_failure() {
    let mut dev = firewall();
    dev.failing = Some(0x8);
    let err = TransportError { code: INJECTED_FAILURE };
    assert_eq!(dev.unblock_mi(), Err(Error::TransportFailed(err)));
    assert_eq!(dev.log.len(), 2);
}

#[test]
fn blocked_agrees_with_status() {
    for status in [0u32, 1, 0xFFFF_FFFF] {
        let mut dev = firewall();
        dev.set_word(0x0, status);
        let read = dev.get_mi_fault_status().unwrap();
        assert_eq!(read, status);
        assert_eq!(dev.mi_is_blocked(), Ok(read != 0));
    }
}

#[test]
fn status_read_failure_is_reported() {
    let mut dev = firewall();
    dev.failing = Some(0x0);
    let err = TransportError { code: INJECTED_FAILURE };
    assert_eq!(dev.get_mi_fault_status(), Err(Error::TransportFailed(err)));
    assert_eq!(dev.mi_is_blocked(), Err(Error::TransportFailed(err)));
}

#[test]
fn ip_version_is_read_from_its_register() {
    let mut dev = firewall();
    dev.set_word(0x10, 0x0001_0203);
    assert_eq!(dev.get_ip_version(), Ok(0x0001_0203));
    assert_eq!(dev.log, vec![Access::Read { offset: 0x10, result: Ok(0x0001_0203) }]);
}

#[test]
fn missing_register_is_a_transport_failure() {
    let mut dev = SimRegisters::new(2);
    let err = TransportError { code: NO_SUCH_REGISTER };
    assert_eq!(dev.get_ip_version(), Err(Error::TransportFailed(err)));
}

#[test]
fn firewall_dump_reads_each_register_once() {
    let mut dev = firewall();
    dev.set_word(0x10, 7);
    assert_eq!(dev.get_all_axi_firewall_regs(), Ok(vec![0, 0, 0, 7]));
    let offsets: Vec<u64> = dev
        .log
        .iter()
        .map(|a| match a {
            Access::Read { offset, .. } => *offset,
            Access::Write { .. } => panic!("unexpected write"),
        })
        .collect();
    assert_eq!(offsets, vec![0x0, 0x4, 0x8, 0x10]);
}

#[test]
fn firewall_dump_stops_at_first_failure() {
    let mut dev = firewall();
    dev.failing = Some(0x8);
    let err = TransportError { code: INJECTED_FAILURE };
    assert_eq!(dev.get_all_axi_firewall_regs(), Err(Error::TransportFailed(err)));
    assert_eq!(dev.log.len(), 3);
}
