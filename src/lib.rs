//! A verified core for a desktop viewer of message-broker topics: broker
//! addressing and client settings, record decoding, the bounded outbound
//! queue of each topic consumer, subscription bookkeeping and the screen
//! state machine.

pub mod client;
pub mod settings;
pub mod decode;
pub mod consumer;
pub mod bridge;
pub mod screen;
