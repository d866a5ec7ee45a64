//! Receive-side core of a small VBAN audio streamer: the packet header codec,
//! the jitter buffer that puts datagrams back in playing order, and the
//! bookkeeping of the output stream that plays them.

pub mod endian;
pub mod text;
pub mod vban;
pub mod jitter;
pub mod jitter_laws;
pub mod output;
pub mod recv;
pub mod transmit;
pub mod session_laws;
