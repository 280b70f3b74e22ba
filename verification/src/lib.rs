//! Verified core of the IBC gamm contracts: the Protobuf wire format of the
//! Osmosis and Cosmos messages they exchange, the typed views of those messages,
//! and the decisions each contract takes on the packets and messages it receives.
pub mod wire;
pub mod balancer;
pub mod msg_read;
pub mod proto;
pub mod types;
pub mod text;
pub mod response;
pub mod osmosis;
pub mod juno;
pub mod pool_api;
pub mod pool_manager;
