//! The MoldUDP64 reliable-multicast transport: wire types, the receiver's
//! gap-detecting state machine, and the transmitter's packetizer.
pub mod receiver;
pub mod transmitter;
pub mod types;
