//! The speed test's data: server choice, throughput arithmetic, and the
//! fixed-point result record. The timed transfers themselves happen
//! outside this crate; their measurements are handed in as plain values.

use vstd::prelude::*;
use crate::model::VALUE_MAX;

verus! {

/// The transfer endpoint used when the caller names no server.
pub open spec fn spec_default_server() -> Seq<char> {
    "http://speedtest.ftp.otenet.gr/files/test10Mb.db"@
}

/// Result of one speed test, in fixed-point units; immutable.
#[derive(Clone, Copy, Debug, PartialEq, Eq, Structural)]
pub struct SpeedTestResult {
    /// Download speed in thousandths of a megabit per second.
    pub download_milli_mbps: u64,
    /// Upload speed in thousandths of a megabit per second.
    pub upload_milli_mbps: u64,
    /// Round-trip time in thousandths of a millisecond.
    pub ping_milli_ms: u64,
    /// Wall-clock duration of the whole test, in milliseconds.
    pub duration_ms: u64,
}

impl SpeedTestResult {
    /// Freezes one test's measurements.
    pub fn new(download_milli_mbps: u64, upload_milli_mbps: u64, ping_milli_ms: u64,
        duration_ms: u64) -> (r: SpeedTestResult)
        ensures
            r == (SpeedTestResult {
                download_milli_mbps,
                upload_milli_mbps,
                ping_milli_ms,
                duration_ms,
            }),
    {
        SpeedTestResult { download_milli_mbps, upload_milli_mbps, ping_milli_ms, duration_ms }
    }
}

/// Runs the speed test against one server.
pub struct SpeedTester {
    server_url: String,
}

impl SpeedTester {
    /// The server this tester measures against.
    pub closed spec fn spec_server_url(self) -> Seq<char> {
        self.server_url@
    }

    /// Creates a tester for the given server, or for the default server
    /// when none is given.
    pub fn new(server_url: Option<String>) -> (r: SpeedTester)
        ensures
            match server_url {
                Some(u) => r.spec_server_url() == u@,
                None => r.spec_server_url() == spec_default_server(),
            },
    {
        match server_url {
            Some(u) => SpeedTester { server_url: u },
            None => SpeedTester {
                server_url: "http://speedtest.ftp.otenet.gr/files/test10Mb.db".to_owned(),
            },
        }
    }

    /// The server URL, for the caller that performs the transfer.
    pub fn server_url(&self) -> (r: &str)
        ensures
            r@ == self.spec_server_url(),
    {
        self.server_url.as_str()
    }
}

/// Throughput in thousandths of a bit per second: the bits transferred
/// divided by the elapsed seconds.
pub open spec fn spec_throughput_milli(bytes: int, elapsed_ms: int) -> int {
    bytes * 8 * 1000000 / elapsed_ms
}

/// Computes a transfer's throughput as a sample value. Nothing is owed
/// for an instantaneous transfer (`elapsed_ms == 0`) or one whose rate
/// exceeds the sample value bound; every other transfer yields exactly
/// the bits-per-elapsed-seconds quotient.
pub fn throughput_value(bytes: u64, elapsed_ms: u64) -> (r: Option<u64>)
    ensures
        match r {
            Some(v) => {
                &&& elapsed_ms > 0
                &&& v == spec_throughput_milli(bytes as int, elapsed_ms as int)
                &&& v <= VALUE_MAX
            },
            None => elapsed_ms == 0 || spec_throughput_milli(bytes as int, elapsed_ms as int)
                > VALUE_MAX,
        },
{
    if elapsed_ms == 0 {
        return None;
    }
    let num: u128 = (bytes as u128) * 8000000;
    let v: u128 = num / (elapsed_ms as u128);
    if v > (VALUE_MAX as u128) {
        None
    } else {
        Some(v as u64)
    }
}

} // verus!
