//! A relay engine for datagram streams: endpoint URIs and their roles, the
//! endpoint life cycle, the decisions of the relay loop and the metrics that
//! the relays feed, each stated with a contract and proved against it.

pub mod common;
pub mod relay;
pub mod structures;
pub mod web;
