//! SDO (service data object) protocol.

pub mod abort;
pub mod client;
pub mod exchange;
pub mod server;
pub mod transfer;
pub mod wire;

pub use abort::{abort_description, SdoAbortCode};
pub use client::{SdoClient, SdoClientError, SdoEvent, SdoTransferError, DEFAULT_SDO_TIMEOUT_US};
pub use server::{SdoServer, SdoServerEvent};
