use i2c_txn::pack_message;
use i2c_txn::pack_transaction;
use i2c_txn::parse_transaction;
use i2c_txn::IoctlData;
use i2c_txn::Message;
use i2c_txn::MessageHeader;

#[test]
fn write_descriptor_bytes_exact() {
    let m = Message::write(0x34, 0, vec![0x02]).unwrap();
    assert_eq!(pack_message(&m), vec![0x34, 0x00, 0x00, 0x00, 0x01, 0x00]);
}

#[test]
fn read_descriptor_bytes_exact() {
    let m = Message::read(0x34, 0, vec![0]).unwrap();
    assert_eq!(pack_message(&m), vec![0x34, 0x00, 0x01, 0x00, 0x01, 0x00]);
}

#[test]
fn packing_is_repeatable() {
    let m = Message::custom(0x77, 0x4000, vec![9, 8, 7]).unwrap();
    assert_eq!(pack_message(&m), pack_message(&m));
}

#[test]
fn descriptor_fields_little_endian() {
    let m = Message::custom(0x1234, 0x8001, vec![0u8; 300]).unwrap();
    assert_eq!(pack_message(&m), vec![0x34, 0x12, 0x01, 0x80, 0x2C, 0x01]);
}

#[test]
fn block_is_count_then_descriptors() {
    let w = Message::write(0x34, 0, vec![0x02]).unwrap();
    let r = Message::read(0x34, 0, vec![0]).unwrap();
    let txn = IoctlData::new(vec![w, r]);
    assert_eq!(txn.count, 2);
    assert_eq!(
        pack_transaction(&txn),
        vec![
            0x02, 0x00, 0x00, 0x00, // count, 32-bit little-endian
            0x34, 0x00, 0x00, 0x00, 0x01, 0x00, // write descriptor
            0x34, 0x00, 0x01, 0x00, 0x01, 0x00, // read descriptor
        ]
    );
}

#[test]
fn block_round_trip() {
    let ops = vec![
        Message::write(0x34, 0, vec![0xAA, 0xBB]).unwrap(),
        Message::read(0x50, 0, vec![0; 5]).unwrap(),
        Message::custom(0x3FF, 0x0011, Vec::new()).unwrap(),
    ];
    let txn = IoctlData::new(ops);
    let packed = pack_transaction(&txn);
    let headers = parse_transaction(&packed).unwrap();
    assert_eq!(
        headers,
        vec![
            MessageHeader { addr: 0x34, flags: 0x0000, len: 2 },
            MessageHeader { addr: 0x50, flags: 0x0001, len: 5 },
            MessageHeader { addr: 0x3FF, flags: 0x0011, len: 0 },
        ]
    );
}

#[test]
fn empty_block_round_trips() {
    let txn = IoctlData::new(Vec::new());
    let packed = pack_transaction(&txn);
    assert_eq!(packed, vec![0x00, 0x00, 0x00, 0x00]);
    assert_eq!(parse_transaction(&packed).unwrap(), Vec::new());
}

#[test]
fn parse_rejects_short_block() {
    assert!(parse_transaction(&vec![0x01, 0x00, 0x00]).is_none());
}

#[test]
fn parse_rejects_count_over_limit() {
    let mut bytes = vec![43, 0x00, 0x00, 0x00];
    bytes.extend(std::iter::repeat(0u8).take(43 * 6));
    assert!(parse_transaction(&bytes).is_none());
}

#[test]
fn parse_rejects_length_mismatch() {
    // count says one descriptor, none follows
    assert!(parse_transaction(&vec![0x01, 0x00, 0x00, 0x00]).is_none());
}
