//! The NASDAQ SoupBinTCP v4 session protocol: wire types, the client's session
//! logic, and the server's session bookkeeping.
pub mod client;
pub mod server;
pub mod types;
