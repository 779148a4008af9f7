//! One addressed read or write on the bus: the operation a transaction is
//! made of, with the protocol flag bits and the per-operation length limit.

use vstd::prelude::*;

use crate::error::Error;

verus! {

/// Read data, from slave to master; without it the operation writes.
pub const I2C_M_RD: u16 = 0x0001;
/// The address is a ten-bit chip address.
pub const I2C_M_TEN: u16 = 0x0010;
/// The length is the first received byte.
pub const I2C_M_RECV_LEN: u16 = 0x0400;
/// Suppress read-ack checking.
pub const I2C_M_NO_RD_ACK: u16 = 0x0800;
/// Ignore NAK from the slave.
pub const I2C_M_IGNORE_NAK: u16 = 0x1000;
/// Reverse the direction bit sent with the address.
pub const I2C_M_REV_DIR_ADDR: u16 = 0x2000;
/// No repeated start before this operation.
pub const I2C_M_NOSTART: u16 = 0x4000;
/// Force a stop condition after this operation.
pub const I2C_M_STOP: u16 = 0x8000;

/// The driver takes at most this many bytes in one operation's buffer.
pub const I2C_MAX_LEN: usize = 8192;

/// One read or write against a slave address, carrying its own buffer:
/// source bytes for a write, the destination for a read.
pub struct Message {
    /// The 7-bit or 10-bit slave address.
    pub addr: u16,
    /// Protocol flag bits; `I2C_M_RD` set means a read.
    pub flags: u16,
    /// The operation's buffer, at most `I2C_MAX_LEN` bytes.
    pub data: Vec<u8>,
}

impl Message {
    /// The buffer respects the driver's per-operation length limit.
    pub open spec fn wf(&self) -> bool {
        self.data@.len() <= I2C_MAX_LEN
    }

    /// The operation reads from the slave.
    pub open spec fn is_read(&self) -> bool {
        self.flags & I2C_M_RD == I2C_M_RD
    }

    /// General constructor: the direction is whatever the read bit in
    /// `flags` says, so any protocol-mangling combination can be built.
    /// Fails if and only if the buffer is longer than `I2C_MAX_LEN`.
    pub fn custom(address: u16, flags: u16, data: Vec<u8>) -> (r: Result<Message, Error>)
        ensures
            data@.len() <= I2C_MAX_LEN ==> (r matches Ok(m)
                && m.addr == address
                && m.flags == flags
                && m.data@ == data@),
            data@.len() > I2C_MAX_LEN ==> r == Err::<Message, Error>(Error::LengthExceeded),
    {
        if data.len() > I2C_MAX_LEN {
            Err(Error::LengthExceeded)
        } else {
            Ok(Message { addr: address, flags, data })
        }
    }

    /// A write of `data` to `address`; the read bit is cleared, every other
    /// flag bit is the caller's. Fails if and only if `data` is longer than
    /// `I2C_MAX_LEN`.
    pub fn write(address: u16, flags: u16, data: Vec<u8>) -> (r: Result<Message, Error>)
        ensures
            data@.len() <= I2C_MAX_LEN ==> (r matches Ok(m)
                && m.addr == address
                && m.flags == (flags & !I2C_M_RD)
                && !m.is_read()
                && m.data@ == data@),
            data@.len() > I2C_MAX_LEN ==> r == Err::<Message, Error>(Error::LengthExceeded),
    {
        let cleared = flags & !I2C_M_RD;
        proof {
            assert((cleared & I2C_M_RD) != I2C_M_RD) by (bit_vector)
                requires cleared == flags & !I2C_M_RD;
        }
        Message::custom(address, cleared, data)
    }

    /// A read into `buffer` from `address`; the read bit is set on top of
    /// the caller's flags, and `buffer` is the destination the kernel will
    /// fill. Fails if and only if `buffer` is longer than `I2C_MAX_LEN`.
    pub fn read(address: u16, flags: u16, buffer: Vec<u8>) -> (r: Result<Message, Error>)
        ensures
            buffer@.len() <= I2C_MAX_LEN ==> (r matches Ok(m)
                && m.addr == address
                && m.flags == (flags | I2C_M_RD)
                && m.is_read()
                && m.data@ == buffer@),
            buffer@.len() > I2C_MAX_LEN ==> r == Err::<Message, Error>(Error::LengthExceeded),
    {
        let set = flags | I2C_M_RD;
        proof {
            assert((set & I2C_M_RD) == I2C_M_RD) by (bit_vector)
                requires set == flags | I2C_M_RD;
        }
        Message::custom(address, set, buffer)
    }

    /// The byte count of the operation's buffer, as the descriptor carries it.
    pub fn len(&self) -> (n: u16)
        requires
            self.wf(),
        ensures
            n == self.data@.len(),
    {
        self.data.len() as u16
    }
}

} // verus!
