use i2c_txn::BusHandle;
use i2c_txn::Error;
use i2c_txn::Factory;
use i2c_txn::IoctlData;
use i2c_txn::Message;
use i2c_txn::SimDevice;

fn echo_handle(last: u8) -> BusHandle {
    BusHandle::open_simulated(true, SimDevice { slave_present: true, last }).unwrap()
}

#[test]
fn echo_scenario_write_then_read() {
    let mut h = echo_handle(0);
    let w = Message::write(0x34, 0, vec![0x02]).unwrap();
    let r = Message::read(0x34, 0, vec![0]).unwrap();
    let mut txn = IoctlData::new(vec![w, r]);
    assert!(h.submit(&mut txn).is_ok());
    assert_eq!(txn.messages[0].data, vec![0x02]); // write buffer untouched
    assert_eq!(txn.messages[1].data, vec![0x03]); // last written byte, plus one
}

#[test]
fn count_at_limit_passes_validation() {
    let mut h = echo_handle(0);
    let ops: Vec<Message> = (0..42)
        .map(|_| Message::write(0x34, 0, vec![0x01]).unwrap())
        .collect();
    let mut txn = IoctlData::new(ops);
    assert!(h.submit(&mut txn).is_ok());
    assert_eq!(h.device.last, 0x01);
}

#[test]
fn count_over_limit_fails_before_the_device() {
    let mut h = echo_handle(0);
    let ops: Vec<Message> = (0..43)
        .map(|_| Message::write(0x34, 0, vec![0x01]).unwrap())
        .collect();
    let mut txn = IoctlData::new(ops);
    assert_eq!(h.submit(&mut txn), Err(Error::TooManyOperations));
    // nothing reached the device: its state is as it was
    assert_eq!(h.device.last, 0);
}

#[test]
fn empty_transaction_fails_validation() {
    let mut h = echo_handle(0);
    let mut txn = IoctlData::new(Vec::new());
    assert_eq!(h.submit(&mut txn), Err(Error::TooManyOperations));
}

#[test]
fn missing_node_fails_open() {
    let r = BusHandle::open_simulated(false, SimDevice { slave_present: true, last: 0 });
    assert_eq!(r.err(), Some(Error::DeviceUnavailable));
}

#[test]
fn silent_slave_reports_device_not_present() {
    let dev = SimDevice { slave_present: false, last: 0 };
    let mut h = BusHandle::open_simulated(true, dev).unwrap();
    let r = Message::read(0x34, 0, vec![0xEE]).unwrap();
    let mut txn = IoctlData::new(vec![r]);
    assert_eq!(h.submit(&mut txn), Err(Error::DeviceNotPresent));
    assert_eq!(txn.messages[0].data, vec![0xEE]); // buffer untouched
}

#[test]
fn repeated_transaction_mutates_identically() {
    let mut h = echo_handle(0);
    let mut results = Vec::new();
    for _ in 0..3 {
        let w = Message::write(0x34, 0, vec![0x07]).unwrap();
        let r = Message::read(0x34, 0, vec![0, 0]).unwrap();
        let mut txn = IoctlData::new(vec![w, r]);
        assert!(h.submit(&mut txn).is_ok());
        results.push(txn.messages[1].data.clone());
    }
    assert_eq!(results[0], vec![0x08, 0x08]);
    assert_eq!(results[1], results[0]);
    assert_eq!(results[2], results[0]);
}

#[test]
fn read_wraps_after_highest_byte() {
    let mut h = echo_handle(0);
    let w = Message::write(0x34, 0, vec![0xFF]).unwrap();
    let r = Message::read(0x34, 0, vec![0]).unwrap();
    let mut txn = IoctlData::new(vec![w, r]);
    assert!(h.submit(&mut txn).is_ok());
    assert_eq!(txn.messages[1].data, vec![0x00]);
}

#[test]
fn reads_leave_device_state_alone() {
    let mut h = echo_handle(0x10);
    let r1 = Message::read(0x34, 0, vec![0]).unwrap();
    let r2 = Message::read(0x34, 0, vec![0]).unwrap();
    let mut txn = IoctlData::new(vec![r1, r2]);
    assert!(h.submit(&mut txn).is_ok());
    assert_eq!(txn.messages[0].data, vec![0x11]);
    assert_eq!(txn.messages[1].data, vec![0x11]);
    assert_eq!(h.device.last, 0x10);
}

#[test]
fn os_codes_map_to_typed_errors() {
    assert_eq!(Error::from_os_code(1), Error::PermissionDenied);
    assert_eq!(Error::from_os_code(13), Error::PermissionDenied);
    assert_eq!(Error::from_os_code(6), Error::DeviceNotPresent);
    assert_eq!(Error::from_os_code(19), Error::DeviceNotPresent);
    assert_eq!(Error::from_os_code(121), Error::DeviceNotPresent);
    assert_eq!(Error::from_os_code(11), Error::DeviceBusy);
    assert_eq!(Error::from_os_code(16), Error::DeviceBusy);
    assert_eq!(Error::from_os_code(110), Error::BusTimeout);
    assert_eq!(Error::from_os_code(999), Error::ProtocolError(999));
}

#[test]
fn factory_binds_default_address() {
    let f = Factory::new(echo_handle(0), 0x34);
    let w = f.write(vec![0x02]).unwrap();
    assert_eq!(w.addr, 0x34);
    assert_eq!(w.flags, 0x0000);
    let r = f.read(vec![0]).unwrap();
    assert_eq!(r.addr, 0x34);
    assert_eq!(r.flags, 0x0001);
    let c = f.custom(vec![0x05], 0x50, 0x0010).unwrap();
    assert_eq!(c.addr, 0x50);
    assert_eq!(c.flags, 0x0010);
}

#[test]
fn factory_send_runs_the_transaction() {
    let mut f = Factory::new(echo_handle(0), 0x34);
    let w = f.write(vec![0x02]).unwrap();
    let r = f.read(vec![0]).unwrap();
    let mut txn = IoctlData::new(vec![w, r]);
    assert!(f.send(&mut txn).is_ok());
    assert_eq!(txn.messages[1].data, vec![0x03]);
}

#[test]
fn oversized_factory_operation_fails() {
    let f = Factory::new(echo_handle(0), 0x34);
    assert_eq!(f.write(vec![0u8; 8193]).err(), Some(Error::LengthExceeded));
}
