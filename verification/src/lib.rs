//! Building blocks for a market-data and order-entry stack: SoupBinTCP v4
//! session framing and session logic, the MoldUDP64 reliable-multicast
//! transport, fixed-point money arithmetic, and a price-time-priority order
//! book.
pub mod amount;
pub mod cbuf;
pub mod digits;
pub mod moldudp64;
pub mod nasdaq;
pub mod order;
pub mod orderbook;
pub mod ouch;
pub mod soupbintcp;
pub mod wire;
