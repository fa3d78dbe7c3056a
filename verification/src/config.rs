//! Loading a network's peer list out of its JSON config document.
//!
//! The document shape is `{ "peers": [ { "name": <string>, "ip": <string>,
//! ... }, ... ], ... }`. Unknown fields are ignored; a `name` or `ip` that
//! is absent or not a string is recorded as absent; an absent or non-array
//! `peers` field means zero peers, not an error.

use vstd::prelude::*;

verus! {

use crate::ConfigError;

/// One peer as the config document describes it: an optional name and an
/// optional IP literal, both free-form strings at this stage.
#[derive(Clone, Debug, PartialEq)]
pub struct PeerRecord {
    pub name: Option<String>,
    pub ip: Option<String>,
}

/// Spec-level image of a `PeerRecord`.
pub struct SpecPeer {
    pub name: Option<Seq<char>>,
    pub ip: Option<Seq<char>>,
}

impl View for PeerRecord {
    type V = SpecPeer;

    open spec fn view(&self) -> SpecPeer {
        SpecPeer {
            name: match self.name {
                Some(n) => Some(n@),
                None => None,
            },
            ip: match self.ip {
                Some(i) => Some(i@),
                None => None,
            },
        }
    }
}

/// What a config document's text holds: not JSON at all, JSON without a
/// `peers` array, or the peers in array order.
pub enum ParsedConfig {
    Malformed,
    NoPeers,
    Peers(Seq<SpecPeer>),
}

/// What parsing a config text yields. The text alone decides it.
pub uninterp spec fn json_peers(s: Seq<char>) -> ParsedConfig;

/// Executable image of `ParsedConfig`.
pub enum RawConfig {
    Malformed,
    NoPeers,
    Peers(Vec<PeerRecord>),
}

impl View for RawConfig {
    type V = ParsedConfig;

    open spec fn view(&self) -> ParsedConfig {
        match self {
            RawConfig::Malformed => ParsedConfig::Malformed,
            RawConfig::NoPeers => ParsedConfig::NoPeers,
            RawConfig::Peers(ps) => ParsedConfig::Peers(ps@.map_values(|p: PeerRecord| p@)),
        }
    }
}

/// Relies on `serde_json::from_str` to parse the document and on
/// `serde_json::Value::{get, as_array, as_str}` to read the `peers` array
/// out of it; the outcome is a function of the text alone.
#[verifier::external_body]
fn parse_config(s: &str) -> (r: RawConfig)
    ensures
        r@ == json_peers(s@),
{
    let v: serde_json::Value = match serde_json::from_str(s) {
        Ok(v) => v,
        Err(_) => return RawConfig::Malformed,
    };
    match v.get("peers").and_then(|p| p.as_array()) {
        None => RawConfig::NoPeers,
        Some(arr) => RawConfig::Peers(
            arr.iter().map(
                |p| PeerRecord {
                    name: p.get("name").and_then(|x| x.as_str()).map(|x| x.to_owned()),
                    ip: p.get("ip").and_then(|x| x.as_str()).map(|x| x.to_owned()),
                },
            ).collect(),
        ),
    }
}

/// Spec-level image of a config read: `None` when the file could not be
/// read at all.
pub open spec fn view_config(c: Option<String>) -> Option<Seq<char>> {
    match c {
        Some(t) => Some(t@),
        None => None,
    }
}

/// The peers a network's config read yields, or why none could be had:
/// an unreadable file and malformed text are errors, while a readable
/// document without a `peers` array simply has zero peers.
pub open spec fn spec_load(config: Option<Seq<char>>) -> Result<Seq<SpecPeer>, ConfigError> {
    match config {
        None => Err(ConfigError::Unreadable),
        Some(text) => match json_peers(text) {
            ParsedConfig::Malformed => Err(ConfigError::Malformed),
            ParsedConfig::NoPeers => Ok(Seq::empty()),
            ParsedConfig::Peers(ps) => Ok(ps),
        },
    }
}

/// Spec-level image of a vector of peer records.
pub open spec fn view_peers(ps: Seq<PeerRecord>) -> Seq<SpecPeer> {
    ps.map_values(|p: PeerRecord| p@)
}

/// Obtain a network's peers from its config read, exactly as `spec_load`
/// describes.
pub fn load_peers(config: &Option<String>) -> (r: Result<Vec<PeerRecord>, ConfigError>)
    ensures
        match r {
            Ok(ps) => spec_load(view_config(*config)) == Ok::<Seq<SpecPeer>, ConfigError>(
                view_peers(ps@),
            ),
            Err(e) => spec_load(view_config(*config)) == Err::<Seq<SpecPeer>, ConfigError>(e),
        },
{
    let text = match config {
        Some(t) => t,
        None => {
            return Err(ConfigError::Unreadable);
        },
    };
    match parse_config(text.as_str()) {
        RawConfig::Malformed => Err(ConfigError::Malformed),
        RawConfig::NoPeers => {
            let empty: Vec<PeerRecord> = Vec::new();
            proof {
                assert(view_peers(empty@) =~= Seq::<SpecPeer>::empty());
            }
            Ok(empty)
        },
        RawConfig::Peers(ps) => Ok(ps),
    }
}

} // verus!
