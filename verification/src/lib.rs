use vstd::prelude::*;

pub mod text;
pub mod addr;
pub mod names;
pub mod config;
pub mod hosts;
pub mod network;
pub mod dispatch;
pub mod laws;

verus! {

/// The closed four-outcome contract that every query answers with.
/// `TryAgain` is reserved by the contract and never produced by this engine.
#[derive(Clone, Debug, PartialEq, Eq)]
pub enum Response<T> {
    Success(T),
    NotFound,
    Unavail,
    TryAgain,
}

/// Address family of a name query. Only IPv4 queries are ever served.
#[derive(Clone, Copy, PartialEq, Eq, Structural, Debug)]
pub enum AddressFamily {
    Ipv4,
    Ipv6,
    Unspecified,
}

/// Why a network's peer list could not be obtained: the config file could
/// not be read, or its contents were not valid JSON.
#[derive(Clone, Copy, PartialEq, Eq, Structural, Debug)]
pub enum ConfigError {
    Unreadable,
    Malformed,
}

} // verus!
