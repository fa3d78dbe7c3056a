//! The hostname convention `<peer>.<network>.wg`: building such a name,
//! parsing a queried name back into its labels, and deriving a network
//! name from a config file name.

use vstd::prelude::*;

verus! {

use vstd::string::StrSliceExecFns;
use vstd::string::StringExecFns;
use crate::text::{
    spec_find,
    spec_split,
    lemma_split_at,
    lemma_split_none,
    lemma_split_nonempty,
    lemma_spec_find_props,
    find_from,
};

/// The externally visible name of a peer: `<peer>.<network>.wg`.
pub open spec fn spec_host_name(peer: Seq<char>, network: Seq<char>) -> Seq<char> {
    peer + seq!['.'] + network + seq!['.', 'w', 'g']
}

/// The peer and network labels of a queried name, if it consists of
/// exactly three dot-separated labels whose third is `wg`.
pub open spec fn spec_query_parts(s: Seq<char>) -> Option<(Seq<char>, Seq<char>)> {
    let parts = spec_split(s, '.');
    if parts.len() == 3 && parts[2] == seq!['w', 'g'] {
        Some((parts[0], parts[1]))
    } else {
        None
    }
}

/// Build `<peer>.<network>.wg`.
pub fn make_host_name(peer: &str, network: &str) -> (r: String)
    ensures
        r@ == spec_host_name(peer@, network@),
{
    let mut r = peer.to_owned();
    r.append(".");
    r.append(network);
    r.append(".wg");
    proof {
        reveal_strlit(".");
        reveal_strlit(".wg");
        assert(r@ =~= spec_host_name(peer@, network@));
    }
    r
}

/// Split a queried name into its peer and network labels, exactly as
/// `spec_query_parts` reads it.
pub fn parse_query_name(s: &str) -> (r: Option<(String, String)>)
    ensures
        match r {
            Some(pn) => spec_query_parts(s@) == Some((pn.0@, pn.1@)),
            None => spec_query_parts(s@) is None,
        },
{
    let len = s.unicode_len();
    let ghost whole = s@;
    let i1 = match find_from(s, 0, '.') {
        Some(i) => i,
        None => {
            proof {
                lemma_split_none(whole, '.');
            }
            return None;
        },
    };
    proof {
        lemma_split_at(whole, '.', i1 as int);
    }
    let ghost rest1 = whole.subrange(i1 as int + 1, whole.len() as int);
    let i2 = match find_from(s, i1 + 1, '.') {
        Some(i) => i,
        None => {
            proof {
                assert forall|k: int| 0 <= k < rest1.len() implies rest1[k] != '.' by {
                    assert(rest1[k] == whole[i1 + 1 + k]);
                }
                lemma_split_none(rest1, '.');
            }
            return None;
        },
    };
    proof {
        assert(rest1[i2 - i1 - 1] == '.');
        assert forall|k: int| 0 <= k < i2 - i1 - 1 implies rest1[k] != '.' by {
            assert(rest1[k] == whole[i1 + 1 + k]);
        }
        lemma_split_at(rest1, '.', i2 - i1 - 1);
        assert(rest1.subrange(0, i2 - i1 - 1) =~= whole.subrange(i1 as int + 1, i2 as int));
        assert(rest1.subrange(i2 - i1 - 1 + 1, rest1.len() as int) =~= whole.subrange(
            i2 as int + 1,
            whole.len() as int,
        ));
    }
    let ghost tail = whole.subrange(i2 as int + 1, whole.len() as int);
    if len - i2 == 3 && s.get_char(i2 + 1) == 'w' && s.get_char(i2 + 2) == 'g' {
        proof {
            assert(tail.len() == 2);
            assert(tail[0] == 'w' && tail[1] == 'g');
            assert(tail =~= seq!['w', 'g']);
            assert forall|k: int| 0 <= k < tail.len() implies tail[k] != '.' by {}
            lemma_split_none(tail, '.');
            let parts = spec_split(whole, '.');
            assert(spec_split(rest1, '.') == seq![whole.subrange(i1 as int + 1, i2 as int)]
                + seq![tail]);
            assert(parts == seq![whole.subrange(0, i1 as int)] + spec_split(rest1, '.'));
            assert(parts.len() == 3);
            assert(parts[0] == whole.subrange(0, i1 as int));
            assert(parts[1] == whole.subrange(i1 as int + 1, i2 as int));
            assert(parts[2] == tail);
        }
        let peer = s.substring_char(0, i1).to_owned();
        let network = s.substring_char(i1 + 1, i2).to_owned();
        Some((peer, network))
    } else {
        proof {
            let parts = spec_split(whole, '.');
            lemma_spec_find_props(tail, '.');
            match spec_find(tail, '.') {
                None => {
                    lemma_split_none(tail, '.');
                    assert(parts.len() == 3 && parts[2] == tail);
                    if tail == seq!['w', 'g'] {
                        assert(tail.len() == 2);
                        assert(whole[i2 + 1] == tail[0] && whole[i2 + 2] == tail[1]);
                    }
                },
                Some(j) => {
                    lemma_split_at(tail, '.', j);
                    lemma_split_nonempty(tail.subrange(j + 1, tail.len() as int), '.');
                    assert(parts.len() >= 4);
                },
            }
        }
        None
    }
}

/// A round trip: a name built from dot-free labels parses back into them.
pub proof fn lemma_host_name_round_trip(peer: Seq<char>, network: Seq<char>)
    requires
        !peer.contains('.'),
        !network.contains('.'),
    ensures
        spec_query_parts(spec_host_name(peer, network)) == Some((peer, network)),
{
    let s = spec_host_name(peer, network);
    let p = peer.len() as int;
    let n = network.len() as int;
    assert(s.len() == p + n + 4);
    assert(s[p] == '.');
    assert forall|k: int| 0 <= k < p implies s[k] != '.' by {
        assert(s[k] == peer[k]);
        assert(peer.contains(peer[k]));
    }
    lemma_split_at(s, '.', p);
    let rest = s.subrange(p + 1, s.len() as int);
    assert(rest.len() == n + 3);
    assert(rest[n] == '.');
    assert forall|k: int| 0 <= k < n implies rest[k] != '.' by {
        assert(rest[k] == s[p + 1 + k]);
        assert(s[p + 1 + k] == network[k]);
        assert(network.contains(network[k]));
    }
    lemma_split_at(rest, '.', n);
    let tail = rest.subrange(n + 1, rest.len() as int);
    assert(tail.len() == 2);
    assert(tail[0] == 'w' && tail[1] == 'g');
    assert forall|k: int| 0 <= k < tail.len() implies tail[k] != '.' by {}
    lemma_split_none(tail, '.');
    let parts = spec_split(s, '.');
    assert(spec_split(rest, '.') == seq![rest.subrange(0, n)] + seq![tail]);
    assert(parts == seq![s.subrange(0, p)] + spec_split(rest, '.'));
    assert(parts.len() == 3);
    assert(parts[2] =~= seq!['w', 'g']);
    assert(parts[0] =~= peer);
    assert(parts[1] =~= network);
}

/// The network name a config file name stands for: the file name with
/// every trailing `.conf` stripped.
pub open spec fn spec_network_name(s: Seq<char>) -> Seq<char>
    decreases s.len(),
{
    if s.len() >= 5 && s.subrange(s.len() - 5, s.len() as int) == seq!['.', 'c', 'o', 'n', 'f'] {
        spec_network_name(s.subrange(0, s.len() - 5))
    } else {
        s
    }
}

/// Derive a network name from a config file name.
pub fn network_name(fname: &str) -> (r: String)
    ensures
        r@ == spec_network_name(fname@),
{
    let len = fname.unicode_len();
    let mut end = len;
    proof {
        assert(fname@.subrange(0, len as int) =~= fname@);
    }
    loop
        invariant
            end <= len,
            len == fname@.len(),
            spec_network_name(fname@) == spec_network_name(fname@.subrange(0, end as int)),
        decreases end,
    {
        let ghost cur = fname@.subrange(0, end as int);
        if end >= 5 && fname.get_char(end - 5) == '.' && fname.get_char(end - 4) == 'c'
            && fname.get_char(end - 3) == 'o' && fname.get_char(end - 2) == 'n' && fname.get_char(
            end - 1,
        ) == 'f' {
            proof {
                assert(cur.len() == end);
                assert(cur.subrange(end - 5, end as int) =~= seq!['.', 'c', 'o', 'n', 'f']);
                assert(cur.subrange(0, end - 5) =~= fname@.subrange(0, end - 5));
            }
            end = end - 5;
        } else {
            proof {
                if cur.len() >= 5 && cur.subrange(cur.len() - 5, cur.len() as int) == seq![
                    '.',
                    'c',
                    'o',
                    'n',
                    'f',
                ] {
                    assert(cur[end - 5] == '.' && cur[end - 4] == 'c' && cur[end - 3] == 'o'
                        && cur[end - 2] == 'n' && cur[end - 1] == 'f');
                    assert(false);
                }
                assert(spec_network_name(cur) == cur);
            }
            let r = fname.substring_char(0, end).to_owned();
            proof {
                assert(r@ == spec_network_name(fname@));
            }
            return r;
        }
    }
}

} // verus!
