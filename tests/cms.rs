use warp_devices::cms::{
    CardMgmtOps, CmsReg, DeviceError, ReadinessError, HBM_TEMP_MONITOR_ENABLE,
};
use warp_devices::sim::{SimClock, SimRegisters, INJECTED_FAILURE};
use warp_devices::transport::{Access, TransportError};

const HOST_STATUS: u64 = 0x2_830c;

fn cms() -> SimRegisters {
    SimRegisters::new((HOST_STATUS / 4 + 1) as usize)
}

#[test]
fn never_ready_times_out_within_one_step() {
    let mut dev = cms();
    let mut clock = SimClock::new(500, 10);
    assert_eq!(dev.expect_ready_host_status(&mut clock, 1000), Err(ReadinessError::Timeout));
    let waited = clock.now - 500;
    assert!(waited > 1000);
    assert!(waited <= 1010);
    assert_eq!(dev.log.len(), 101);
}

#[test]
fn tiny_timeout_ends_after_two_polls() {
    let mut dev = cms();
    let mut clock = SimClock::new(0, 1);
    assert_eq!(dev.expect_ready_host_status(&mut clock, 1), Err(ReadinessError::Timeout));
    assert_eq!(dev.log.len(), 2);
    assert_eq!(clock.now, 2);
}

#[test]
fn zero_timeout_polls_once() {
    let mut dev = cms();
    let mut clock = SimClock::new(0, 0);
    assert_eq!(dev.expect_ready_host_status(&mut clock, 0), Err(ReadinessError::Timeout));
    assert_eq!(dev.log.len(), 1);
}

#[test]
fn exhausted_clock_ends_the_poll() {
    let mut dev = cms();
    let mut clock = SimClock::new(u64::MAX - 5, 2);
    assert_eq!(
        dev.expect_ready_host_status(&mut clock, u64::MAX),
        Err(ReadinessError::Timeout)
    );
    assert_eq!(clock.now, u64::MAX);
    assert_eq!(dev.log.len(), 4);
}

#[test]
fn ready_on_first_poll_reports_zero_elapsed() {
    let mut dev = cms();
    dev.set_word(HOST_STATUS, 1);
    let mut clock = SimClock::new(42, 10);
    assert_eq!(dev.expect_ready_host_status(&mut clock, 1000), Ok(0));
    assert_eq!(dev.log, vec![Access::Read { offset: HOST_STATUS, result: Ok(1) }]);
}

#[test]
fn ready_bit_is_the_lowest_bit() {
    let mut dev = cms();
    dev.set_word(HOST_STATUS, 0xFFFF_FFFE);
    let mut clock = SimClock::new(0, 100);
    assert_eq!(dev.expect_ready_host_status(&mut clock, 250), Err(ReadinessError::Timeout));
    let mut dev = cms();
    dev.set_word(HOST_STATUS, 3);
    assert_eq!(dev.expect_ready_host_status(&mut clock, 250), Ok(0));
}

#[test]
fn poll_transport_failure_is_distinct_from_timeout() {
    let mut dev = cms();
    dev.failing = Some(HOST_STATUS);
    let mut clock = SimClock::new(0, 10);
    assert_eq!(
        dev.expect_ready_host_status(&mut clock, 1000),
        Err(ReadinessError::TransportFailed(TransportError { code: INJECTED_FAILURE }))
    );
    assert_eq!(dev.log.len(), 1);
}

#[test]
fn init_releases_microcontroller_reset() {
    let mut dev = cms();
    assert_eq!(dev.init_cms(), Ok(()));
    assert_eq!(dev.log, vec![Access::Write { offset: 0x2_0000, value: 1, status: Ok(()) }]);
}

#[test]
fn init_failure_is_reported() {
    let mut dev = cms();
    dev.failing = Some(0x2_0000);
    assert_eq!(
        dev.init_cms(),
        Err(DeviceError::TransportFailed(TransportError { code: INJECTED_FAILURE }))
    );
}

#[test]
fn enabling_hbm_monitoring_writes_control_once() {
    let mut dev = cms();
    assert_eq!(dev.enable_hbm_temp_monitoring(), Ok(()));
    assert_eq!(HBM_TEMP_MONITOR_ENABLE, 1 << 27);
    assert_eq!(dev.word(0x2_8018), Some(0x0800_0000));
    assert_eq!(dev.log.len(), 1);
}

#[test]
fn cms_register_is_read_without_interpretation() {
    let mut dev = cms();
    dev.set_word(CmsReg::FwVersion.offset(), 0xDEAD_BEEF);
    assert_eq!(dev.get_cms_reg(CmsReg::FwVersion), Ok(0xDEAD_BEEF));
    assert_eq!(dev.log, vec![Access::Read { offset: 0x2_8004, result: Ok(0xDEAD_BEEF) }]);
}

#[test]
fn cms_dump_reads_each_register_once_at_its_offset() {
    let mut dev = cms();
    let regs = CmsReg::all();
    for (i, reg) in regs.iter().enumerate() {
        dev.set_word(reg.offset(), i as u32 + 100);
    }
    let vals = dev.get_all_cms_regs().unwrap();
    let expected: Vec<u32> = (0..regs.len() as u32).map(|i| i + 100).collect();
    assert_eq!(vals, expected);
    assert_eq!(dev.log.len(), regs.len());
    for (access, reg) in dev.log.iter().zip(regs.iter()) {
        match access {
            Access::Read { offset, .. } => assert_eq!(*offset, reg.offset()),
            Access::Write { .. } => panic!("unexpected write"),
        }
    }
    let mut offsets: Vec<u64> = regs.iter().map(|r| r.offset()).collect();
    offsets.sort();
    offsets.dedup();
    assert_eq!(offsets.len(), regs.len());
}
