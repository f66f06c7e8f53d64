//! The options each command runs under, as plain values.  The embedding
//! binary owns argument parsing and hands these structs in.

use vstd::prelude::*;

verus! {

/// The default chunk size of both transfer drivers, in bytes.
pub const DEFAULT_CHUNK_SIZE: u32 = 4096;

/// The default pacing delay between WRITE frames, in microseconds.
pub const DEFAULT_DELAY_MICROS: u64 = 500;

/// Options every command shares: where the relay lives.
#[derive(Debug)]
pub struct RootOpts {
    /// Hostname or address of the relay.
    pub relay_host: String,
    /// UDP port of the relay.
    pub relay_port: u16,
    /// Whether to log verbosely.
    pub verbose: bool,
}

/// Options of the sender.
#[derive(Debug)]
pub struct SendOpts {
    /// Path of the file to offer.
    pub file: String,
    /// Microseconds of pacing sleep after each WRITE frame.
    pub delay: u64,
    /// Bytes per WRITE frame.
    pub chunk_size: u32,
    /// Whether to withhold the hostname from the receiver.
    pub hide_hostname: bool,
    /// Whether to offer the file without a content hash.
    pub skip_hash: bool,
}

/// Options of the receiver.
#[derive(Debug)]
pub struct GetOpts {
    /// The passphrase quoted to the relay.
    pub passphrase: String,
    /// An explicit output path, overriding the offered file name.
    pub out_file: Option<String>,
    /// Microseconds of pacing sleep, mirrored from the sender side.
    pub delay: u64,
    /// Whether to download without asking.
    pub force: bool,
    /// Whether to withhold the hostname from the sender.
    pub hide_hostname: bool,
    /// Whether to overwrite an existing output file without asking.
    pub overwrite_file: bool,
    /// Whether prompts are forbidden; a needed prompt then fails.
    pub no_prompt: bool,
    /// Whether to skip the post-transfer hash check.
    pub skip_hash: bool,
    /// Bytes per read buffer.
    pub chunk_size: u32,
}

/// Options of the relay; it takes everything from [`RootOpts`].
#[derive(Debug)]
pub struct RelayServerOpts {}

/// Which command runs.
#[derive(Debug)]
pub enum SubCommand {
    Serve(RelayServerOpts),
    Send(SendOpts),
    Get(GetOpts),
}

} // verus!
