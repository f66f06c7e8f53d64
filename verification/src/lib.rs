//! Core of a peer-to-peer file transfer tool: a relay that matches senders
//! and receivers by passphrase, a line-oriented control-message codec, a
//! stop-and-wait reliable datagram transport, and the pure decision logic of
//! the transfer drivers.  All socket, file and timer work is left to the
//! binary that embeds this library; everything here is verified.

pub mod codec;
pub mod commands;
pub mod error;
pub mod models;
pub mod passphrase;
pub mod relay;
pub mod reliable_udp;
pub mod socket;
pub mod transfer;
pub mod utils;
