//! The settings that the processing core reads.
use vstd::prelude::*;

verus! {

/// A TCP fingerprint to imitate.
pub struct FingerprintConfig {
    /// P0F-formatted signature string
    pub signature: String,
    /// MSS value to use if not specified in the signature
    pub mss: Option<u16>,
}

/// The address, port and protocol version written into each status request.
pub struct TargetConfig {
    pub addr: String,
    pub port: u16,
    pub protocol_version: i32,
}

pub struct ScannerConfig {
    pub enabled: bool,
    /// The list of modes that we'll use to scan; all of them where unset.
    pub modes: Option<Vec<String>>,
}

pub struct FingerprintingConfig {
    /// Test quirks with the server's protocol implementation. Passive
    /// fingerprinting is done either way.
    pub enabled: bool,
}

/// The MSS that a fingerprint configuration leaves to wildcards.
pub const DEFAULT_MSS: u16 = 1500;

impl FingerprintConfig {
    /// The MSS that stands for a wildcard in the signature.
    pub fn fallback_mss(&self) -> (r: u16)
        ensures
            r == match self.mss { Some(m) => m, None => 1500 },
    {
        match self.mss {
            Some(m) => m,
            None => DEFAULT_MSS,
        }
    }
}

} // verus!
