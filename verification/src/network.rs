pub mod bufs;
pub mod crypto;
pub mod envelope;
pub mod handler;
pub mod outbound;
pub mod packet;
pub mod request;
pub mod types;
