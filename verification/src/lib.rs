//! Atomic multi-operation I2C transactions against the Linux character-device
//! driver's combined read/write control request.
//!
//! The library holds the transaction model: building single bus operations
//! ([`Message`]), bundling them with a count into the transaction block,
//! packing that block into the exact byte layout the kernel interface
//! expects, validating the driver's limits, and mapping OS error codes to
//! typed errors.

use vstd::prelude::*;

mod bus;
mod codec;
mod error;
mod factory;
mod message;

pub use codec::lemma_block_round_trip;
pub use codec::pack_message;
pub use codec::pack_transaction;
pub use codec::parse_transaction;
pub use codec::spec_header_at;
pub use codec::spec_header_of;
pub use codec::spec_headers;
pub use codec::spec_pack_block;
pub use codec::spec_pack_header;
pub use codec::spec_pack_table;
pub use codec::spec_pack_u16;
pub use codec::spec_pack_u32;
pub use codec::spec_parse_block;
pub use codec::spec_unpack_u16;
pub use codec::spec_unpack_u32;
pub use codec::MessageHeader;

pub use bus::has_nonempty_write;
pub use bus::has_prior_nonempty_write;
pub use bus::headers_unchanged;
pub use bus::is_nonempty_write;
pub use bus::lemma_repeated_transaction_idempotent;
pub use bus::msgs_unchanged;
pub use bus::sim_read_byte;
pub use bus::sim_result;
pub use bus::sim_state;
pub use bus::sim_step;
pub use bus::submit_spec;
pub use bus::BusHandle;
pub use bus::IoctlData;
pub use bus::SimDevice;
pub use bus::I2C_MAX_MSGS;
pub use bus::I2C_RDWR;
pub use error::spec_error_of_code;
pub use error::Error;
pub use error::EACCES;
pub use error::EAGAIN;
pub use error::EBUSY;
pub use error::ENODEV;
pub use error::ENXIO;
pub use error::EPERM;
pub use error::EREMOTEIO;
pub use error::ETIMEDOUT;
pub use factory::Factory;
pub use message::Message;
pub use message::I2C_MAX_LEN;
pub use message::I2C_M_IGNORE_NAK;
pub use message::I2C_M_NOSTART;
pub use message::I2C_M_NO_RD_ACK;
pub use message::I2C_M_RD;
pub use message::I2C_M_RECV_LEN;
pub use message::I2C_M_REV_DIR_ADDR;
pub use message::I2C_M_STOP;
pub use message::I2C_M_TEN;
