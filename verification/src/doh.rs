//! Construction and validation of a DoH relay configuration.
//!
//! The configuration is built once per run request from raw string and
//! boolean inputs. Construction either fully succeeds, with every field
//! populated and consistent, or fails as a unit with the first cause in
//! input order: no partially-built configuration is ever handed to the
//! relay engine. The three fragmentation ranges are only required, and
//! only examined, when fragmentation is requested.

use vstd::prelude::*;
use crate::addr::{host_port, parse_host_port};
use crate::fragment::{fragment_range, parse_fragment_option};

verus! {

/// The fixed lower retry/parallelism count handed to the relay.
pub const DOH_MIN_CONCURRENCY: u64 = 1;

/// The fixed upper retry/parallelism count handed to the relay.
pub const DOH_MAX_CONCURRENCY: u64 = 10;

/// Why a configuration could not be built.
#[derive(Clone, Copy, PartialEq, Eq, Structural, Debug)]
pub enum DohConfigError {
    /// The listen endpoint is not a valid `address:port`.
    BadListenAddress,
    /// The server endpoint is not a valid `address:port`.
    BadServerAddress,
    /// The packet-count range is not a valid `<min>-<max>`.
    BadFragmentPackets,
    /// The payload-length range is not a valid `<min>-<max>`.
    BadFragmentLengths,
    /// The inter-fragment interval range is not a valid `<min>-<max>`.
    BadFragmentIntervals,
}

/// How DoH traffic is split to resist traffic analysis: ranges for the
/// packet count, the payload length, and the inter-fragment interval.
#[derive(Debug)]
pub struct FragmentPolicy {
    pub packets_min: u64,
    pub packets_max: u64,
    pub length_min: u64,
    pub length_max: u64,
    pub interval_min: u64,
    pub interval_max: u64,
}

impl FragmentPolicy {
    /// Each range is ordered.
    pub open spec fn wf(&self) -> bool {
        self.packets_min <= self.packets_max && self.length_min <= self.length_max
            && self.interval_min <= self.interval_max
    }
}

/// A fully validated DoH relay configuration.
#[derive(Debug)]
pub struct DohConfig {
    pub listen_host: String,
    pub listen_port: u16,
    pub remote_host: String,
    pub remote_port: u16,
    pub domain: String,
    pub path: String,
    pub use_post: bool,
    pub fragment: Option<FragmentPolicy>,
    pub min_concurrency: u64,
    pub max_concurrency: u64,
}

impl DohConfig {
    /// A built configuration is consistent: an ordered fragment policy
    /// when present, and the fixed concurrency bounds in order.
    pub open spec fn wf(&self) -> bool {
        &&& match self.fragment {
            Some(p) => p.wf(),
            None => true,
        }
        &&& self.min_concurrency <= self.max_concurrency
    }

    /// Builds a configuration from the raw inputs, or fails as a unit
    /// with the first invalid input. The fragmentation ranges are only
    /// parsed when `fragment` is set.
    pub fn build(
        listen: &str,
        server: &str,
        domain: &str,
        path: &str,
        use_post: bool,
        fragment: bool,
        fragment_packets: &str,
        fragment_lengths: &str,
        fragment_intervals: &str,
    ) -> (r: Result<DohConfig, DohConfigError>)
        ensures
            match build_failure(
                listen@,
                server@,
                fragment,
                fragment_packets@,
                fragment_lengths@,
                fragment_intervals@,
            ) {
                Some(err) => r == Err::<DohConfig, DohConfigError>(err),
                None => r is Ok,
            },
            r matches Ok(c) ==> {
                &&& c.wf()
                &&& host_port(listen@) == Some((c.listen_host@, c.listen_port))
                &&& host_port(server@) == Some((c.remote_host@, c.remote_port))
                &&& c.domain@ == domain@
                &&& c.path@ == path@
                &&& c.use_post == use_post
                &&& c.min_concurrency == DOH_MIN_CONCURRENCY
                &&& c.max_concurrency == DOH_MAX_CONCURRENCY
                &&& (fragment ==> match c.fragment {
                    Some(p) => fragment_range(fragment_packets@) == Some(
                        (p.packets_min, p.packets_max),
                    ) && fragment_range(fragment_lengths@) == Some((p.length_min, p.length_max))
                        && fragment_range(fragment_intervals@) == Some(
                        (p.interval_min, p.interval_max),
                    ),
                    None => false,
                })
                &&& (!fragment ==> c.fragment is None)
            },
    {
        let (listen_host, listen_port) = match parse_host_port(listen) {
            Some(hp) => hp,
            None => {
                return Err(DohConfigError::BadListenAddress);
            },
        };
        let (remote_host, remote_port) = match parse_host_port(server) {
            Some(hp) => hp,
            None => {
                return Err(DohConfigError::BadServerAddress);
            },
        };
        let policy = if fragment {
            let (packets_min, packets_max) = match parse_fragment_option(
                fragment_packets.to_owned(),
            ) {
                Some(p) => p,
                None => {
                    return Err(DohConfigError::BadFragmentPackets);
                },
            };
            let (length_min, length_max) = match parse_fragment_option(
                fragment_lengths.to_owned(),
            ) {
                Some(p) => p,
                None => {
                    return Err(DohConfigError::BadFragmentLengths);
                },
            };
            let (interval_min, interval_max) = match parse_fragment_option(
                fragment_intervals.to_owned(),
            ) {
                Some(p) => p,
                None => {
                    return Err(DohConfigError::BadFragmentIntervals);
                },
            };
            Some(
                FragmentPolicy {
                    packets_min,
                    packets_max,
                    length_min,
                    length_max,
                    interval_min,
                    interval_max,
                },
            )
        } else {
            None
        };
        Ok(
            DohConfig {
                listen_host,
                listen_port,
                remote_host,
                remote_port,
                domain: domain.to_owned(),
                path: path.to_owned(),
                use_post,
                fragment: policy,
                min_concurrency: DOH_MIN_CONCURRENCY,
                max_concurrency: DOH_MAX_CONCURRENCY,
            },
        )
    }
}

/// The first reason construction fails, in input order, or `None` when
/// every examined input is valid.
pub open spec fn build_failure(
    listen: Seq<char>,
    server: Seq<char>,
    fragment: bool,
    packets: Seq<char>,
    lengths: Seq<char>,
    intervals: Seq<char>,
) -> Option<DohConfigError> {
    if host_port(listen) is None {
        Some(DohConfigError::BadListenAddress)
    } else if host_port(server) is None {
        Some(DohConfigError::BadServerAddress)
    } else if fragment && fragment_range(packets) is None {
        Some(DohConfigError::BadFragmentPackets)
    } else if fragment && fragment_range(lengths) is None {
        Some(DohConfigError::BadFragmentLengths)
    } else if fragment && fragment_range(intervals) is None {
        Some(DohConfigError::BadFragmentIntervals)
    } else {
        None
    }
}

} // verus!
