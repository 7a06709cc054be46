//! Reliable delivery of one byte buffer over an unreliable datagram link.
//!
//! The crate holds the parts of a stop-and-wait transfer that can be reasoned
//! about without a socket: the checksum, the wire layout of data and
//! acknowledgment packets, the simulated link faults, and the decisions the
//! sending and the receiving side take for each datagram and each timeout.
//! The caller owns the socket: it performs the action that a step returns and
//! reports what happened next as the following event.
//!
//! - [`checksum`]: the additive 16-bit checksum that every packet carries.
//! - [`crc`]: the 32-bit cyclic redundancy check, a stronger check value for
//!   callers that frame their own data.
//! - [`endian`]: numbers as big-endian bytes.
//! - [`packet`]: data packets and acknowledgments, and their bytes on the wire.
//! - [`split`]: a buffer as a sequence of packets.
//! - [`impairment`]: damage and loss by chance.
//! - [`sender`] and [`receiver`]: the two sides, each as a state and its steps.
//! - [`transfer`]: what holds of the two sides together.

pub mod checksum;
pub mod crc;
pub mod endian;
pub mod impairment;
pub mod packet;
pub mod receiver;
pub mod sender;
pub mod split;
pub mod transfer;

pub use checksum::{calc_checksum, calc_sum, validate_checksum};
pub use crc::crc32;
pub use packet::{AccPacket, Packet};
pub use receiver::{Receiver, RecvAction};
pub use sender::{SendAction, Sender};
pub use split::split_into_packets;
