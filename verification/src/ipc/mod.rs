//! Inter-process communication.

pub mod cap;
pub mod dispatch;
pub mod fanout;
pub mod frame;
pub mod inbox;
pub mod laws;
pub mod message;
pub mod port;
pub mod reply;
pub mod user;
