//! Convenience layer over one handle and a fixed default slave address:
//! thin forwarders to operation construction and transaction submission,
//! with no validation of their own.

use vstd::prelude::*;

use crate::bus::submit_spec;
use crate::bus::BusHandle;
use crate::bus::IoctlData;
use crate::error::Error;
use crate::message::Message;
use crate::message::I2C_MAX_LEN;
use crate::message::I2C_M_RD;

verus! {

/// Binds a bus handle and a default slave address, so single-slave callers
/// need not repeat the address on every operation.
pub struct Factory {
    /// The handle every `send` goes through.
    pub handle: BusHandle,
    /// The slave address `read` and `write` bind.
    pub address: u16,
}

impl Factory {
    /// Binds `handle` and a default slave `address`.
    pub fn new(handle: BusHandle, address: u16) -> (r: Factory)
        ensures
            r.handle == handle,
            r.address == address,
    {
        Factory { handle, address }
    }

    /// A read into `buffer` at the bound address, with no further flags.
    /// Fails if and only if `buffer` is longer than `I2C_MAX_LEN`.
    pub fn read(&self, buffer: Vec<u8>) -> (r: Result<Message, Error>)
        ensures
            buffer@.len() <= I2C_MAX_LEN ==> (r matches Ok(m)
                && m.addr == self.address
                && m.flags == I2C_M_RD
                && m.data@ == buffer@),
            buffer@.len() > I2C_MAX_LEN ==> r == Err::<Message, Error>(Error::LengthExceeded),
    {
        proof {
            assert(0u16 | I2C_M_RD == I2C_M_RD) by (bit_vector);
        }
        Message::read(self.address, 0, buffer)
    }

    /// A write of `data` to the bound address, with no further flags.
    /// Fails if and only if `data` is longer than `I2C_MAX_LEN`.
    pub fn write(&self, data: Vec<u8>) -> (r: Result<Message, Error>)
        ensures
            data@.len() <= I2C_MAX_LEN ==> (r matches Ok(m)
                && m.addr == self.address
                && m.flags == 0
                && m.data@ == data@),
            data@.len() > I2C_MAX_LEN ==> r == Err::<Message, Error>(Error::LengthExceeded),
    {
        proof {
            assert(0u16 & !I2C_M_RD == 0) by (bit_vector);
        }
        Message::write(self.address, 0, data)
    }

    /// An operation with explicit address and flags, overriding the bound
    /// address. Fails if and only if `data` is longer than `I2C_MAX_LEN`.
    pub fn custom(&self, data: Vec<u8>, address: u16, flags: u16) -> (r: Result<Message, Error>)
        ensures
            data@.len() <= I2C_MAX_LEN ==> (r matches Ok(m)
                && m.addr == address
                && m.flags == flags
                && m.data@ == data@),
            data@.len() > I2C_MAX_LEN ==> r == Err::<Message, Error>(Error::LengthExceeded),
    {
        Message::custom(address, flags, data)
    }

    /// Forwards one transaction to the bound handle's `submit`.
    pub fn send(&mut self, txn: &mut IoctlData) -> (r: Result<(), Error>)
        requires
            old(txn).wf(),
        ensures
            final(txn).wf(),
            final(self).address == old(self).address,
            submit_spec(
                old(self).handle.device,
                *old(txn),
                final(self).handle.device,
                *final(txn),
                r,
            ),
    {
        self.handle.submit(txn)
    }
}

} // verus!
