//! The resolved host entry handed back to callers, and spec-level views
//! of the option, vector and response shapes it travels in.

use vstd::prelude::*;

verus! {

use crate::Response;
use crate::addr::Ipv4Address;

/// A resolved host: its encoded `<peer>.<network>.wg` name, its addresses
/// (this engine only ever synthesizes a single IPv4 address), and its
/// aliases (always empty here).
#[derive(Clone, Debug, PartialEq)]
pub struct Host {
    pub name: String,
    pub addresses: Vec<Ipv4Address>,
    pub aliases: Vec<String>,
}

/// Spec-level image of a `Host`.
pub struct SpecHost {
    pub name: Seq<char>,
    pub addresses: Seq<Ipv4Address>,
    pub aliases: Seq<Seq<char>>,
}

impl View for Host {
    type V = SpecHost;

    open spec fn view(&self) -> SpecHost {
        SpecHost {
            name: self.name@,
            addresses: self.addresses@,
            aliases: self.aliases@.map_values(|a: String| a@),
        }
    }
}

/// Spec-level image of an optional host.
pub open spec fn view_opt_host(r: Option<Host>) -> Option<SpecHost> {
    match r {
        Some(h) => Some(h@),
        None => None,
    }
}

/// Spec-level image of a vector of hosts.
pub open spec fn view_hosts(hs: Seq<Host>) -> Seq<SpecHost> {
    hs.map_values(|h: Host| h@)
}

/// Spec-level image of a single-host response.
pub open spec fn view_resp(r: Response<Host>) -> Response<SpecHost> {
    match r {
        Response::Success(h) => Response::Success(h@),
        Response::NotFound => Response::NotFound,
        Response::Unavail => Response::Unavail,
        Response::TryAgain => Response::TryAgain,
    }
}

} // verus!
