use i2c_txn::Error;
use i2c_txn::Message;
use i2c_txn::I2C_MAX_LEN;
use i2c_txn::I2C_M_RD;
use i2c_txn::I2C_M_STOP;
use i2c_txn::I2C_M_TEN;

#[test]
fn write_within_limit_succeeds() {
    let m = Message::write(0x34, 0, vec![0x02]).unwrap();
    assert_eq!(m.addr, 0x34);
    assert_eq!(m.flags, 0);
    assert_eq!(m.data, vec![0x02]);
}

#[test]
fn empty_buffer_is_valid() {
    let w = Message::write(0x34, 0, Vec::new()).unwrap();
    assert_eq!(w.data.len(), 0);
    let r = Message::read(0x34, 0, Vec::new()).unwrap();
    assert_eq!(r.data.len(), 0);
}

#[test]
fn buffer_at_limit_succeeds() {
    let m = Message::write(0x34, 0, vec![0xAB; I2C_MAX_LEN]).unwrap();
    assert_eq!(m.data.len(), I2C_MAX_LEN);
}

#[test]
fn buffer_over_limit_fails() {
    let too_long = vec![0u8; I2C_MAX_LEN + 1];
    assert_eq!(
        Message::write(0x34, 0, too_long.clone()).err(),
        Some(Error::LengthExceeded)
    );
    assert_eq!(
        Message::read(0x34, 0, too_long.clone()).err(),
        Some(Error::LengthExceeded)
    );
    assert_eq!(
        Message::custom(0x34, 0, too_long).err(),
        Some(Error::LengthExceeded)
    );
}

#[test]
fn read_sets_read_bit() {
    let m = Message::read(0x50, I2C_M_STOP, vec![0, 0]).unwrap();
    assert_eq!(m.flags, I2C_M_STOP | I2C_M_RD);
}

#[test]
fn write_clears_read_bit() {
    let m = Message::write(0x50, I2C_M_RD, vec![1]).unwrap();
    assert_eq!(m.flags, 0);
}

#[test]
fn custom_keeps_caller_flags() {
    let m = Message::custom(0x50, I2C_M_TEN | I2C_M_RD, vec![7]).unwrap();
    assert_eq!(m.flags, I2C_M_TEN | I2C_M_RD);
    assert_eq!(m.addr, 0x50);
    assert_eq!(m.data, vec![7]);
}

#[test]
fn len_matches_buffer() {
    let m = Message::write(0x34, 0, vec![1, 2, 3]).unwrap();
    assert_eq!(m.len(), 3);
}
