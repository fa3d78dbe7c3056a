//! The library's laws: properties of the resolution engine that hold for
//! every input, stated over the same spec functions the executable
//! contracts use, and proved here once and for all.

use vstd::prelude::*;

verus! {

use crate::Response;
use crate::addr::{Ipv4Address, IpAddress, spec_parse_ipv4};
use crate::config::{SpecPeer, spec_load};
use crate::hosts::SpecHost;
use crate::names::spec_host_name;
use crate::network::{
    spec_addr_matches,
    spec_collect_hosts,
    spec_host_by_addr,
    spec_host_by_name,
    spec_host_from_peer,
    spec_peer_label,
};
use crate::dispatch::{
    SpecSnapshot,
    SpecNamePlan,
    spec_all_hosts,
    spec_lookup_by_addr,
    spec_plan_by_name,
    spec_resolve_by_name,
};
use crate::names::spec_query_parts;
use crate::text::spec_split;
use crate::AddressFamily;

/// A peer with a well-formed IPv4 literal synthesizes exactly one host:
/// its name is `<peer>.<network>.wg` and its one address is the parsed
/// literal.
pub proof fn lemma_valid_peer_makes_host(peer: SpecPeer, network: Seq<char>, a: Ipv4Address)
    requires
        peer.ip matches Some(ipstr) && spec_parse_ipv4(ipstr) == Some(a),
    ensures
        spec_host_from_peer(peer, network) == Some(
            SpecHost {
                name: spec_host_name(spec_peer_label(peer), network),
                addresses: seq![a],
                aliases: Seq::<Seq<char>>::empty(),
            },
        ),
{
}

/// A peer whose `ip` field is missing or not an IPv4 literal synthesizes
/// nothing.
pub proof fn lemma_invalid_peer_makes_no_host(peer: SpecPeer, network: Seq<char>)
    requires
        match peer.ip {
            Some(ipstr) => spec_parse_ipv4(ipstr) is None,
            None => true,
        },
    ensures
        spec_host_from_peer(peer, network) is None,
{
}

/// A peer that synthesizes nothing is absent from bulk collection: the
/// collected hosts are exactly those of the list without it.
pub proof fn lemma_invalid_peer_not_collected(peers: Seq<SpecPeer>, i: int, network: Seq<char>)
    requires
        0 <= i < peers.len(),
        spec_host_from_peer(peers[i], network) is None,
    ensures
        spec_collect_hosts(peers, network) == spec_collect_hosts(peers.remove(i), network),
    decreases peers.len(),
{
    if i == peers.len() - 1 {
        assert(peers.remove(i) =~= peers.drop_last());
    } else {
        let dl = peers.drop_last();
        lemma_invalid_peer_not_collected(dl, i, network);
        assert(peers.remove(i).drop_last() =~= dl.remove(i));
        assert(peers.remove(i).last() == peers.last());
    }
}

/// A peer that synthesizes nothing never answers an address query either:
/// the scan behaves as if the peer were absent.
pub proof fn lemma_invalid_peer_no_addr_match(
    peers: Seq<SpecPeer>,
    i: int,
    network: Seq<char>,
    target: IpAddress,
)
    requires
        0 <= i < peers.len(),
        spec_host_from_peer(peers[i], network) is None,
    ensures
        spec_host_by_addr(peers, network, target) == spec_host_by_addr(
            peers.remove(i),
            network,
            target,
        ),
    decreases peers.len(),
{
    assert(!spec_addr_matches(peers[i], target));
    if i == 0 {
        assert(peers.remove(0) =~= peers.drop_first());
    } else {
        assert(peers.remove(i)[0] == peers[0]);
        if spec_addr_matches(peers[0], target) {
        } else {
            lemma_invalid_peer_no_addr_match(peers.drop_first(), i - 1, network, target);
            assert(peers.drop_first().remove(i - 1) =~= peers.remove(i).drop_first());
        }
    }
}

/// A host handed back by a name query always stems from a peer that
/// carries the queried name and synthesizes that very host; a peer whose
/// address is unusable can never be the source of one.
pub proof fn lemma_by_name_yields_valid(peers: Seq<SpecPeer>, network: Seq<char>, target: Seq<char>)
    ensures
        spec_host_by_name(peers, network, target) matches Some(h) ==> exists|k: int|
            0 <= k < peers.len() && (#[trigger] peers[k]).name == Some(target)
                && spec_host_from_peer(peers[k], network) == Some(h),
    decreases peers.len(),
{
    if peers.len() == 0 {
    } else if peers[0].name == Some(target) {
    } else {
        lemma_by_name_yields_valid(peers.drop_first(), network, target);
        match spec_host_by_name(peers, network, target) {
            Some(h) => {
                let k0 = choose|k: int|
                    0 <= k < peers.drop_first().len() && (#[trigger] peers.drop_first()[k]).name
                        == Some(target) && spec_host_from_peer(peers.drop_first()[k], network)
                        == Some(h);
                assert(peers[k0 + 1] == peers.drop_first()[k0]);
            },
            None => {},
        }
    }
}

/// Within one network, the first peer in list order whose address matches
/// decides the by-address answer, even when later peers match too.
pub proof fn lemma_first_addr_match_wins(
    peers: Seq<SpecPeer>,
    network: Seq<char>,
    target: IpAddress,
    i: int,
)
    requires
        0 <= i < peers.len(),
        spec_addr_matches(peers[i], target),
        forall|k: int| 0 <= k < i ==> !spec_addr_matches(#[trigger] peers[k], target),
    ensures
        spec_host_by_addr(peers, network, target) == spec_host_from_peer(peers[i], network),
    decreases peers.len(),
{
    if i == 0 {
    } else {
        assert(!spec_addr_matches(peers[0], target));
        assert(peers.drop_first()[i - 1] == peers[i]);
        assert forall|k: int| 0 <= k < i - 1 implies !spec_addr_matches(
            #[trigger] peers.drop_first()[k],
            target,
        ) by {
            assert(peers.drop_first()[k] == peers[k + 1]);
        }
        lemma_first_addr_match_wins(peers.drop_first(), network, target, i - 1);
    }
}

/// Whether a network can be loaded and then finds no peer for the target.
pub open spec fn spec_network_no_addr_match(net: SpecSnapshot, target: IpAddress) -> bool {
    spec_load(net.config) matches Ok(ps) && spec_host_by_addr(ps, net.name, target) is None
}

/// Across networks, a by-address search is decided by the first network
/// that answers: networks before it neither matched nor failed to load,
/// and every network after it is never consulted.
pub proof fn lemma_addr_lookup_short_circuit(nets: Seq<SpecSnapshot>, target: IpAddress, i: int)
    requires
        0 <= i <= nets.len(),
        forall|k: int| 0 <= k < i ==> spec_network_no_addr_match(#[trigger] nets[k], target),
    ensures
        spec_lookup_by_addr(nets, target) == spec_lookup_by_addr(
            nets.subrange(i, nets.len() as int),
            target,
        ),
    decreases i,
{
    if i == 0 {
        assert(nets.subrange(0, nets.len() as int) =~= nets);
    } else {
        assert(spec_network_no_addr_match(nets[0], target));
        let df = nets.drop_first();
        assert forall|k: int| 0 <= k < i - 1 implies spec_network_no_addr_match(
            #[trigger] df[k],
            target,
        ) by {
            assert(df[k] == nets[k + 1]);
        }
        lemma_addr_lookup_short_circuit(df, target, i - 1);
        assert(df.subrange(i - 1, df.len() as int) =~= nets.subrange(i, nets.len() as int));
    }
}

/// A by-address search that reaches an unloadable network — no earlier
/// network matched or failed — is `Unavail` for the whole call, never
/// `NotFound`.
pub proof fn lemma_unreadable_network_aborts_addr_lookup(
    nets: Seq<SpecSnapshot>,
    target: IpAddress,
    i: int,
)
    requires
        0 <= i < nets.len(),
        forall|k: int| 0 <= k < i ==> spec_network_no_addr_match(#[trigger] nets[k], target),
        spec_load(nets[i].config) is Err,
    ensures
        spec_lookup_by_addr(nets, target) == Response::<SpecHost>::Unavail,
{
    lemma_addr_lookup_short_circuit(nets, target, i);
    assert(nets.subrange(i, nets.len() as int)[0] == nets[i]);
}

/// A by-name query whose target network's config cannot be loaded is
/// `Unavail`, never `NotFound`.
pub proof fn lemma_unreadable_target_unavail(
    config: Option<Seq<char>>,
    network: Seq<char>,
    peer: Seq<char>,
)
    requires
        spec_load(config) is Err,
    ensures
        spec_resolve_by_name(config, network, peer) == Response::<SpecHost>::Unavail,
{
}

/// A well-formed query name asked with an address family other than IPv4
/// is `NotFound`, whatever is on disk.
pub proof fn lemma_non_ipv4_family_not_found(q: Seq<char>, family: AddressFamily)
    requires
        family != AddressFamily::Ipv4,
        spec_query_parts(q) is Some,
    ensures
        spec_plan_by_name(q, family) == SpecNamePlan::NotFound,
{
}

/// A query name with other than exactly three dot-separated labels, or
/// whose third label is not `wg`, is `Unavail`, whatever the family.
pub proof fn lemma_malformed_query_unavail(q: Seq<char>, family: AddressFamily)
    requires
        spec_split(q, '.').len() != 3 || spec_split(q, '.')[2] != seq!['w', 'g'],
    ensures
        spec_plan_by_name(q, family) == SpecNamePlan::Unavail,
{
}

/// A network whose config cannot be loaded contributes nothing to a bulk
/// listing: the listing is exactly that of the remaining networks, and in
/// particular never `Unavail` on that network's account.
pub proof fn lemma_unreadable_network_skipped(nets: Seq<SpecSnapshot>, i: int)
    requires
        0 <= i < nets.len(),
        spec_load(nets[i].config) is Err,
    ensures
        spec_all_hosts(nets) == spec_all_hosts(nets.remove(i)),
    decreases nets.len(),
{
    if i == nets.len() - 1 {
        assert(nets.remove(i) =~= nets.drop_last());
        assert(spec_all_hosts(nets) =~= spec_all_hosts(nets.drop_last()));
    } else {
        let dl = nets.drop_last();
        lemma_unreadable_network_skipped(dl, i);
        assert(nets.remove(i).drop_last() =~= dl.remove(i));
        assert(nets.remove(i).last() == nets.last());
    }
}

} // verus!
