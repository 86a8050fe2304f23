pub mod error;
pub mod frame;
pub mod node;
pub mod poll;

pub use error::Error;
pub use poll::{Async, AsyncSink, Poll, StartSend};
