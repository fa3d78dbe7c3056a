//! The three externally visible operations, each a pure function of the
//! call's arguments and a snapshot of what the caller read from storage:
//! the scanned network list with each network's config read. The caller
//! re-reads storage for every call; nothing is cached here.

use vstd::prelude::*;

verus! {

use crate::{AddressFamily, Response};
use crate::addr::IpAddress;
use crate::config::{spec_load, view_config};
use crate::hosts::{Host, SpecHost, view_hosts, view_resp};
use crate::names::{spec_query_parts, parse_query_name};
use crate::network::{Network, spec_network_hosts, spec_host_by_addr, spec_host_by_name};

/// One discovered network together with the result of reading its config
/// file: `None` when the file could not be read.
pub struct NetworkSnapshot {
    pub network: Network,
    pub config: Option<String>,
}

/// Spec-level image of a `NetworkSnapshot`.
pub struct SpecSnapshot {
    pub name: Seq<char>,
    pub config: Option<Seq<char>>,
}

impl View for NetworkSnapshot {
    type V = SpecSnapshot;

    open spec fn view(&self) -> SpecSnapshot {
        SpecSnapshot { name: self.network.name@, config: view_config(self.config) }
    }
}

/// Spec-level image of a scanned network list.
pub open spec fn view_snaps(nets: Seq<NetworkSnapshot>) -> Seq<SpecSnapshot> {
    nets.map_values(|n: NetworkSnapshot| n@)
}

/// Every host of every network, in network order then peer order; a
/// network whose config cannot be loaded contributes nothing.
pub open spec fn spec_all_hosts(nets: Seq<SpecSnapshot>) -> Seq<SpecHost>
    decreases nets.len(),
{
    if nets.len() == 0 {
        Seq::empty()
    } else {
        spec_all_hosts(nets.drop_last()) + spec_network_hosts(
            nets.last().config,
            nets.last().name,
        )
    }
}

/// The outcome of a by-address search across networks in order: the first
/// network whose scan finds a matching peer answers; the first network
/// whose config cannot be loaded aborts the whole search instead.
pub open spec fn spec_lookup_by_addr(nets: Seq<SpecSnapshot>, target: IpAddress) -> Response<
    SpecHost,
>
    decreases nets.len(),
{
    if nets.len() == 0 {
        Response::NotFound
    } else {
        match spec_load(nets[0].config) {
            Err(_) => Response::Unavail,
            Ok(ps) => match spec_host_by_addr(ps, nets[0].name, target) {
                Some(h) => Response::Success(h),
                None => spec_lookup_by_addr(nets.drop_first(), target),
            },
        }
    }
}

/// List every known host. A failed directory scan is `Unavail`; once the
/// scan succeeded the answer is always `Success`, one bad network's config
/// never blanks out the enumeration.
#[verifier::loop_isolation(false)]
pub fn get_all_entries(scan: &Option<Vec<NetworkSnapshot>>) -> (r: Response<Vec<Host>>)
    ensures
        match *scan {
            None => r is Unavail,
            Some(nets) => r matches Response::Success(hs) && view_hosts(hs@) == spec_all_hosts(
                view_snaps(nets@),
            ),
        },
{
    let nets = match scan {
        Some(ns) => ns,
        None => {
            return Response::Unavail;
        },
    };
    let ghost sn = view_snaps(nets@);
    let mut hosts: Vec<Host> = Vec::new();
    proof {
        assert(view_hosts(hosts@) =~= Seq::<SpecHost>::empty());
    }
    let mut i: usize = 0;
    while i < nets.len()
        invariant
            0 <= i <= nets.len(),
            sn == view_snaps(nets@),
            sn.len() == nets.len(),
            view_hosts(hosts@) == spec_all_hosts(sn.subrange(0, i as int)),
        decreases nets.len() - i,
    {
        let ghost prefix = sn.subrange(0, i as int);
        let ghost next = sn.subrange(0, i as int + 1);
        proof {
            assert(next.drop_last() =~= prefix);
            assert(next.last() == nets@[i as int]@);
        }
        nets[i].network.collect_hosts(&nets[i].config, &mut hosts);
        proof {
            assert(view_hosts(hosts@) == spec_all_hosts(next));
        }
        i = i + 1;
    }
    proof {
        assert(sn.subrange(0, sn.len() as int) =~= sn);
    }
    Response::Success(hosts)
}

/// Find the host owning an address. The search visits networks in scan
/// order and stops at the first network that has a matching peer — or at
/// the first whose config cannot be loaded, which makes the whole call
/// `Unavail`: a read failure during a targeted search is never passed off
/// as `NotFound`.
#[verifier::loop_isolation(false)]
pub fn get_host_by_addr(scan: &Option<Vec<NetworkSnapshot>>, addr: &IpAddress) -> (r: Response<
    Host,
>)
    ensures
        match *scan {
            None => r is Unavail,
            Some(nets) => view_resp(r) == spec_lookup_by_addr(view_snaps(nets@), *addr),
        },
{
    let nets = match scan {
        Some(ns) => ns,
        None => {
            return Response::Unavail;
        },
    };
    let ghost sn = view_snaps(nets@);
    proof {
        assert(sn.subrange(0, sn.len() as int) =~= sn);
    }
    let mut i: usize = 0;
    while i < nets.len()
        invariant
            0 <= i <= nets.len(),
            sn == view_snaps(nets@),
            sn.len() == nets.len(),
            spec_lookup_by_addr(sn, *addr) == spec_lookup_by_addr(
                sn.subrange(i as int, sn.len() as int),
                *addr,
            ),
        decreases nets.len() - i,
    {
        let ghost rest = sn.subrange(i as int, sn.len() as int);
        proof {
            assert(rest[0] == nets@[i as int]@);
            assert(rest.drop_first() =~= sn.subrange(i as int + 1, sn.len() as int));
        }
        match nets[i].network.host_by_addr(&nets[i].config, addr) {
            Ok(Some(h)) => {
                return Response::Success(h);
            },
            Ok(None) => {},
            Err(_) => {
                return Response::Unavail;
            },
        }
        i = i + 1;
    }
    proof {
        assert(sn.subrange(sn.len() as int, sn.len() as int) =~= Seq::<SpecSnapshot>::empty());
    }
    Response::NotFound
}

/// What a by-name query asks for once its name and family are interpreted.
pub enum NamePlan {
    /// The name does not follow the `<peer>.<network>.wg` encoding; the
    /// query cannot be interpreted at all.
    Unavail,
    /// The name is well-formed but the family is not IPv4, which this
    /// engine never serves.
    NotFound,
    /// Consult the named network's config for the named peer.
    Lookup(Network, String),
}

/// Spec-level image of a `NamePlan`.
pub enum SpecNamePlan {
    Unavail,
    NotFound,
    Lookup(Seq<char>, Seq<char>),
}

impl View for NamePlan {
    type V = SpecNamePlan;

    open spec fn view(&self) -> SpecNamePlan {
        match self {
            NamePlan::Unavail => SpecNamePlan::Unavail,
            NamePlan::NotFound => SpecNamePlan::NotFound,
            NamePlan::Lookup(n, p) => SpecNamePlan::Lookup(n.name@, p@),
        }
    }
}

/// How a by-name query is interpreted: a name with other than exactly
/// three dot-separated labels, or whose third label is not `wg`, is
/// `Unavail`; a well-formed name with a family other than IPv4 is
/// `NotFound` no matter what is on disk; otherwise the second label names
/// the network to consult and the first the peer to look for.
pub open spec fn spec_plan_by_name(q: Seq<char>, family: AddressFamily) -> SpecNamePlan {
    match spec_query_parts(q) {
        None => SpecNamePlan::Unavail,
        Some(pn) => if family != AddressFamily::Ipv4 {
            SpecNamePlan::NotFound
        } else {
            SpecNamePlan::Lookup(pn.1, pn.0)
        },
    }
}

/// Interpret a by-name query. When the answer is `Lookup`, the caller
/// reads that network's config and finishes with `resolve_host_by_name`.
pub fn plan_host_by_name(name: &str, family: AddressFamily) -> (r: NamePlan)
    ensures
        r@ == spec_plan_by_name(name@, family),
{
    match parse_query_name(name) {
        None => NamePlan::Unavail,
        Some((peer, network)) => {
            if family != AddressFamily::Ipv4 {
                NamePlan::NotFound
            } else {
                NamePlan::Lookup(Network { name: network }, peer)
            }
        },
    }
}

/// The outcome of the lookup a `Lookup` plan asks for: an unloadable
/// config is `Unavail`, a missing peer — or one whose address is unusable
/// — is `NotFound`, and otherwise the synthesized host is returned.
pub open spec fn spec_resolve_by_name(
    config: Option<Seq<char>>,
    network: Seq<char>,
    peer: Seq<char>,
) -> Response<SpecHost> {
    match spec_load(config) {
        Err(_) => Response::Unavail,
        Ok(ps) => match spec_host_by_name(ps, network, peer) {
            Some(h) => Response::Success(h),
            None => Response::NotFound,
        },
    }
}

impl Network {
    /// Finish a by-name query against this network's config read.
    pub fn resolve_host_by_name(&self, config: &Option<String>, peer: &str) -> (r: Response<Host>)
        ensures
            view_resp(r) == spec_resolve_by_name(view_config(*config), self.name@, peer@),
    {
        match self.host_by_name(config, peer) {
            Ok(Some(h)) => Response::Success(h),
            Ok(None) => Response::NotFound,
            Err(_) => Response::Unavail,
        }
    }
}

/// Turn the file names a directory scan found into the networks they
/// stand for, in scan order.
pub fn networks_from_filenames(fnames: &Vec<String>) -> (r: Vec<Network>)
    ensures
        r@.len() == fnames@.len(),
        forall|k: int|
            0 <= k < r@.len() ==> r@[k].name@ == crate::names::spec_network_name(fnames@[k]@),
{
    let mut nets: Vec<Network> = Vec::new();
    let mut i: usize = 0;
    while i < fnames.len()
        invariant
            0 <= i <= fnames@.len(),
            nets@.len() == i,
            forall|k: int|
                0 <= k < i ==> nets@[k].name@ == crate::names::spec_network_name(fnames@[k]@),
        decreases fnames@.len() - i,
    {
        let name = crate::names::network_name(fnames[i].as_str());
        nets.push(Network { name });
        i = i + 1;
    }
    nets
}

} // verus!
