//! Per-network resolution: synthesizing a host from one peer record, and
//! the three scans over a network's peer list.

use vstd::prelude::*;

verus! {

use crate::ConfigError;
use crate::addr::{Ipv4Address, IpAddress, spec_parse_ipv4, parse_ipv4};
use crate::config::{PeerRecord, SpecPeer, spec_load, view_config, view_peers, load_peers};
use crate::hosts::{Host, SpecHost, view_opt_host, view_hosts};
use crate::names::{spec_host_name, make_host_name};
use crate::text::str_eq;

/// One overlay network, identified by its name alone. A value lives only
/// for the duration of one query; nothing is cached across calls.
#[derive(Clone, Debug)]
pub struct Network {
    pub name: String,
}

/// The label a peer contributes to its host name: its `name` field, or
/// the empty string when the config gave none.
pub open spec fn spec_peer_label(peer: SpecPeer) -> Seq<char> {
    match peer.name {
        Some(n) => n,
        None => Seq::empty(),
    }
}

/// The host a peer synthesizes, if any: it takes one when and only when
/// its `ip` field is present and is an IPv4 literal. The host's name is
/// `<peer>.<network>.wg`, its one address is the parsed literal, and its
/// alias list is empty.
pub open spec fn spec_host_from_peer(peer: SpecPeer, network: Seq<char>) -> Option<SpecHost> {
    match peer.ip {
        Some(ipstr) => match spec_parse_ipv4(ipstr) {
            Some(a) => Some(
                SpecHost {
                    name: spec_host_name(spec_peer_label(peer), network),
                    addresses: seq![a],
                    aliases: Seq::empty(),
                },
            ),
            None => None,
        },
        None => None,
    }
}

/// The hosts a peer list yields, in peer order, peers without a usable
/// address silently excluded.
pub open spec fn spec_collect_hosts(peers: Seq<SpecPeer>, network: Seq<char>) -> Seq<SpecHost>
    decreases peers.len(),
{
    if peers.len() == 0 {
        Seq::empty()
    } else {
        let init = spec_collect_hosts(peers.drop_last(), network);
        match spec_host_from_peer(peers.last(), network) {
            Some(h) => init.push(h),
            None => init,
        }
    }
}

/// The answer to a by-name scan: the first peer whose `name` field equals
/// the target decides, even if it synthesizes no host.
pub open spec fn spec_host_by_name(peers: Seq<SpecPeer>, network: Seq<char>, target: Seq<char>) -> Option<
    SpecHost,
>
    decreases peers.len(),
{
    if peers.len() == 0 {
        None
    } else if peers[0].name == Some(target) {
        spec_host_from_peer(peers[0], network)
    } else {
        spec_host_by_name(peers.drop_first(), network, target)
    }
}

/// Whether a peer's `ip` field denotes exactly the target address.
/// Families never mix: an IPv6 target matches no peer, since peers only
/// ever synthesize IPv4 hosts.
pub open spec fn spec_addr_matches(peer: SpecPeer, target: IpAddress) -> bool {
    match target {
        IpAddress::V4(x) => match peer.ip {
            Some(ipstr) => spec_parse_ipv4(ipstr) == Some(x),
            None => false,
        },
        IpAddress::V6(_) => false,
    }
}

/// The answer to a by-address scan: the first peer whose address equals
/// the target decides.
pub open spec fn spec_host_by_addr(peers: Seq<SpecPeer>, network: Seq<char>, target: IpAddress) -> Option<
    SpecHost,
>
    decreases peers.len(),
{
    if peers.len() == 0 {
        None
    } else if spec_addr_matches(peers[0], target) {
        spec_host_from_peer(peers[0], network)
    } else {
        spec_host_by_addr(peers.drop_first(), network, target)
    }
}

impl Network {
    /// Synthesize the host entry for one peer record of this network.
    pub fn host_from_peer(&self, peer: &PeerRecord) -> (r: Option<Host>)
        ensures
            view_opt_host(r) == spec_host_from_peer(peer@, self.name@),
    {
        match &peer.ip {
            Some(ipstr) => match parse_ipv4(ipstr.as_str()) {
                Some(a) => {
                    let label: &str = match &peer.name {
                        Some(n) => n.as_str(),
                        None => "",
                    };
                    proof {
                        reveal_strlit("");
                        assert(label@ =~= spec_peer_label(peer@));
                    }
                    let name = make_host_name(label, self.name.as_str());
                    let mut addresses: Vec<Ipv4Address> = Vec::new();
                    addresses.push(a);
                    let aliases: Vec<String> = Vec::new();
                    let h = Host { name, addresses, aliases };
                    proof {
                        assert(h@.addresses =~= seq![a]);
                        assert(h@.aliases =~= Seq::<Seq<char>>::empty());
                    }
                    Some(h)
                },
                None => None,
            },
            None => None,
        }
    }

    /// Append every host this network's config read yields, in peer order.
    /// A failed read or malformed document contributes nothing; it never
    /// aborts the collection.
    #[verifier::loop_isolation(false)]
    pub fn collect_hosts(&self, config: &Option<String>, out: &mut Vec<Host>)
        ensures
            view_hosts(final(out)@) == view_hosts(old(out)@) + spec_network_hosts(
                view_config(*config),
                self.name@,
            ),
    {
        let peers = match load_peers(config) {
            Ok(ps) => ps,
            Err(_) => {
                proof {
                    assert(view_hosts(out@) =~= view_hosts(out@) + Seq::<SpecHost>::empty());
                }
                return ;
            },
        };
        let ghost sp = view_peers(peers@);
        let mut i: usize = 0;
        while i < peers.len()
            invariant
                0 <= i <= peers.len(),
                sp == view_peers(peers@),
                sp.len() == peers.len(),
                view_hosts(out@) == view_hosts(old(out)@) + spec_collect_hosts(
                    sp.subrange(0, i as int),
                    self.name@,
                ),
            decreases peers.len() - i,
        {
            let ghost prefix = sp.subrange(0, i as int);
            let ghost next = sp.subrange(0, i as int + 1);
            proof {
                assert(next.drop_last() =~= prefix);
                assert(next.last() == peers@[i as int]@);
            }
            let synthesized = self.host_from_peer(&peers[i]);
            proof {
                assert(view_opt_host(synthesized) == spec_host_from_peer(next.last(), self.name@));
            }
            match synthesized {
                Some(h) => {
                    let ghost hv = h@;
                    let ghost prev_out = out@;
                    proof {
                        assert(spec_host_from_peer(next.last(), self.name@) == Some(hv));
                        assert(spec_collect_hosts(next, self.name@) == spec_collect_hosts(
                            prefix,
                            self.name@,
                        ).push(hv));
                    }
                    out.push(h);
                    proof {
                        assert(view_hosts(prev_out.push(h)) =~= view_hosts(prev_out).push(hv));
                        assert((view_hosts(old(out)@) + spec_collect_hosts(prefix, self.name@)).push(
                            hv,
                        ) =~= view_hosts(old(out)@) + spec_collect_hosts(prefix, self.name@).push(hv));
                        assert(view_hosts(out@) == view_hosts(old(out)@) + spec_collect_hosts(
                            next,
                            self.name@,
                        ));
                    }
                },
                None => {
                    proof {
                        assert(spec_collect_hosts(next, self.name@) == spec_collect_hosts(
                            prefix,
                            self.name@,
                        ));
                    }
                },
            }
            i = i + 1;
        }
        proof {
            assert(sp.subrange(0, sp.len() as int) =~= sp);
        }
    }

    /// Find the host for the peer of this network carrying the given name;
    /// the first peer with that name decides, and deciding on a peer whose
    /// address is unusable yields no host rather than an error.
    #[verifier::loop_isolation(false)]
    pub fn host_by_name(&self, config: &Option<String>, target: &str) -> (r: Result<
        Option<Host>,
        ConfigError,
    >)
        ensures
            match r {
                Ok(opt) => spec_load(view_config(*config)) matches Ok(ps) && view_opt_host(opt)
                    == spec_host_by_name(ps, self.name@, target@),
                Err(e) => spec_load(view_config(*config)) == Err::<Seq<SpecPeer>, ConfigError>(e),
            },
    {
        let peers = match load_peers(config) {
            Ok(ps) => ps,
            Err(e) => {
                return Err(e);
            },
        };
        let ghost sp = view_peers(peers@);
        proof {
            assert(sp.subrange(0, sp.len() as int) =~= sp);
        }
        let mut i: usize = 0;
        while i < peers.len()
            invariant
                0 <= i <= peers.len(),
                sp == view_peers(peers@),
                sp.len() == peers.len(),
                spec_host_by_name(sp, self.name@, target@) == spec_host_by_name(
                    sp.subrange(i as int, sp.len() as int),
                    self.name@,
                    target@,
                ),
            decreases peers.len() - i,
        {
            let ghost rest = sp.subrange(i as int, sp.len() as int);
            proof {
                assert(rest[0] == peers@[i as int]@);
                assert(rest.drop_first() =~= sp.subrange(i as int + 1, sp.len() as int));
            }
            let found = match &peers[i].name {
                Some(n) => str_eq(n.as_str(), target),
                None => false,
            };
            if found {
                proof {
                    assert(rest[0].name == Some(target@));
                    assert(spec_host_by_name(rest, self.name@, target@) == spec_host_from_peer(
                        rest[0],
                        self.name@,
                    ));
                }
                let found_host = self.host_from_peer(&peers[i]);
                proof {
                    assert(view_opt_host(found_host) == spec_host_from_peer(rest[0], self.name@));
                    assert(view_opt_host(found_host) == spec_host_by_name(sp, self.name@, target@));
                }
                return Ok(found_host);
            }
            i = i + 1;
        }
        proof {
            assert(sp.subrange(sp.len() as int, sp.len() as int) =~= Seq::<SpecPeer>::empty());
        }
        Ok(None)
    }

    /// Find the host for the peer of this network owning the given address;
    /// the first peer whose address matches decides.
    #[verifier::loop_isolation(false)]
    pub fn host_by_addr(&self, config: &Option<String>, target: &IpAddress) -> (r: Result<
        Option<Host>,
        ConfigError,
    >)
        ensures
            match r {
                Ok(opt) => spec_load(view_config(*config)) matches Ok(ps) && view_opt_host(opt)
                    == spec_host_by_addr(ps, self.name@, *target),
                Err(e) => spec_load(view_config(*config)) == Err::<Seq<SpecPeer>, ConfigError>(e),
            },
    {
        let peers = match load_peers(config) {
            Ok(ps) => ps,
            Err(e) => {
                return Err(e);
            },
        };
        let ghost sp = view_peers(peers@);
        proof {
            assert(sp.subrange(0, sp.len() as int) =~= sp);
        }
        let mut i: usize = 0;
        while i < peers.len()
            invariant
                0 <= i <= peers.len(),
                sp == view_peers(peers@),
                sp.len() == peers.len(),
                spec_host_by_addr(sp, self.name@, *target) == spec_host_by_addr(
                    sp.subrange(i as int, sp.len() as int),
                    self.name@,
                    *target,
                ),
            decreases peers.len() - i,
        {
            let ghost rest = sp.subrange(i as int, sp.len() as int);
            proof {
                assert(rest[0] == peers@[i as int]@);
                assert(rest.drop_first() =~= sp.subrange(i as int + 1, sp.len() as int));
            }
            if peer_addr_matches(&peers[i], target) {
                proof {
                    assert(spec_addr_matches(rest[0], *target));
                    assert(spec_host_by_addr(rest, self.name@, *target) == spec_host_from_peer(
                        rest[0],
                        self.name@,
                    ));
                }
                let found_host = self.host_from_peer(&peers[i]);
                proof {
                    assert(view_opt_host(found_host) == spec_host_from_peer(rest[0], self.name@));
                    assert(view_opt_host(found_host) == spec_host_by_addr(sp, self.name@, *target));
                }
                return Ok(found_host);
            }
            i = i + 1;
        }
        proof {
            assert(sp.subrange(sp.len() as int, sp.len() as int) =~= Seq::<SpecPeer>::empty());
        }
        Ok(None)
    }
}

/// Whether one peer's `ip` field denotes exactly the target address.
fn peer_addr_matches(peer: &PeerRecord, target: &IpAddress) -> (r: bool)
    ensures
        r == spec_addr_matches(peer@, *target),
{
    match target {
        IpAddress::V4(x) => match &peer.ip {
            Some(ipstr) => match parse_ipv4(ipstr.as_str()) {
                Some(y) => y == *x,
                None => false,
            },
            None => false,
        },
        IpAddress::V6(_) => false,
    }
}

/// The hosts one network contributes to a bulk listing: all it has, or
/// none at all when its config cannot be loaded.
pub open spec fn spec_network_hosts(config: Option<Seq<char>>, network: Seq<char>) -> Seq<SpecHost> {
    match spec_load(config) {
        Err(_) => Seq::empty(),
        Ok(ps) => spec_collect_hosts(ps, network),
    }
}

} // verus!
