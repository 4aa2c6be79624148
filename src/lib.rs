//! A minimal client for a publish-oriented binary messaging protocol
//! (the CONNECT / PUBLISH / DISCONNECT subset of MQTT 3.1.1): byte-exact
//! packet construction, remaining-length encoding, and the connection
//! lifecycle as a state machine whose I/O is performed by the caller.
pub mod error;
pub mod events;
pub mod protocol;
pub mod session;
pub mod varint;

pub use error::MqttError;
pub use events::{event_update, Events, LipcResult};
pub use protocol::{Protocol, QoS};
pub use session::Session;
pub use varint::VariableLengthEncoder;
