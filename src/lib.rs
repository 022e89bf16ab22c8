//! A bridge between a callback-driven native DHT engine and asynchronous
//! channels: key identifiers, custody of the channel endpoints handed to the
//! engine, delivery of streamed values, the maintenance schedule, and the
//! routing snapshot buffer.

pub mod channels;
pub mod completion;
pub mod custody;
pub mod info_hash;
pub mod scheduler;
pub mod snapshot;
pub mod stream;

