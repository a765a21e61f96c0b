pub mod auto;
pub mod endpoint;
pub mod pipe;
pub mod rist;
pub mod srt;
pub mod transport;
