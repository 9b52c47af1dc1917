//! The device side of SSDP discovery: the message model, a registry of
//! advertised devices, and the decisions of the discovery server.

pub mod addr;
pub mod text;
pub mod notify;
pub mod device;
pub mod server;

pub use device::Device;
pub use notify::{NotifyMessage, NotifyRequest, NotifyResponse};
pub use server::Server;
