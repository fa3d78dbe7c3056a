//! IPv4 addresses and the dotted-decimal literal grammar: four octets,
//! each one to three decimal digits with no leading zero, each at most 255.

use vstd::prelude::*;

verus! {

use vstd::string::StrSliceExecFns;
use crate::text::{spec_split, lemma_split_at, lemma_split_none, lemma_split_nonempty, find_from};

/// An IPv4 address as its four octets.
#[derive(Clone, Copy, PartialEq, Eq, Structural, Debug)]
pub struct Ipv4Address {
    pub o0: u8,
    pub o1: u8,
    pub o2: u8,
    pub o3: u8,
}

/// An address as a query target. Only IPv4 targets can ever resolve;
/// an IPv6 target is carried through but matches no peer, since peers
/// only ever synthesize IPv4 hosts.
#[derive(Clone, Copy, Debug)]
pub enum IpAddress {
    V4(Ipv4Address),
    V6([u8; 16]),
}

pub open spec fn spec_is_digit(c: char) -> bool {
    '0' as u32 <= c as u32 && c as u32 <= '9' as u32
}

pub open spec fn spec_digit(c: char) -> int {
    c as u32 - '0' as u32
}

/// Value of a string of decimal digits, most significant first.
pub open spec fn spec_digits_val(s: Seq<char>) -> int
    decreases s.len(),
{
    if s.len() == 0 {
        0
    } else {
        spec_digits_val(s.drop_last()) * 10 + spec_digit(s.last())
    }
}

pub open spec fn spec_all_digits(s: Seq<char>) -> bool {
    forall|k: int| 0 <= k < s.len() ==> spec_is_digit(s[k])
}

/// One octet of a dotted-decimal literal: one to three digits, no leading
/// zero unless the octet is exactly "0", value at most 255.
pub open spec fn spec_is_octet(s: Seq<char>) -> bool {
    &&& 1 <= s.len() <= 3
    &&& spec_all_digits(s)
    &&& (s.len() > 1 ==> s[0] != '0')
    &&& spec_digits_val(s) <= 255
}

/// The address denoted by a dotted-decimal IPv4 literal, if `s` is one.
pub open spec fn spec_parse_ipv4(s: Seq<char>) -> Option<Ipv4Address> {
    let parts = spec_split(s, '.');
    if parts.len() == 4 && (forall|k: int| 0 <= k < 4 ==> spec_is_octet(#[trigger] parts[k])) {
        Some(
            Ipv4Address {
                o0: spec_digits_val(parts[0]) as u8,
                o1: spec_digits_val(parts[1]) as u8,
                o2: spec_digits_val(parts[2]) as u8,
                o3: spec_digits_val(parts[3]) as u8,
            },
        )
    } else {
        None
    }
}

/// A digit string of length at most three is bounded by 999.
proof fn lemma_digits_val_bounds(s: Seq<char>)
    requires
        spec_all_digits(s),
        s.len() <= 3,
    ensures
        0 <= spec_digits_val(s),
        s.len() <= 1 ==> spec_digits_val(s) <= 9,
        s.len() <= 2 ==> spec_digits_val(s) <= 99,
        spec_digits_val(s) <= 999,
    decreases s.len(),
{
    if s.len() > 0 {
        assert(spec_all_digits(s.drop_last()));
        lemma_digits_val_bounds(s.drop_last());
        assert(spec_is_digit(s.last()));
    }
}

/// Parse the digits of `s` between `from` and `to` as one octet.
fn parse_octet(s: &str, from: usize, to: usize) -> (r: Option<u8>)
    requires
        from <= to <= s@.len(),
    ensures
        match r {
            Some(v) => spec_is_octet(s@.subrange(from as int, to as int)) && v
                == spec_digits_val(s@.subrange(from as int, to as int)),
            None => !spec_is_octet(s@.subrange(from as int, to as int)),
        },
{
    let ghost part = s@.subrange(from as int, to as int);
    let n = to - from;
    if n == 0 || n > 3 {
        return None;
    }
    if n > 1 && s.get_char(from) == '0' {
        return None;
    }
    let mut val: u32 = 0;
    let mut k: usize = 0;
    while k < n
        invariant
            0 <= k <= n,
            n == part.len(),
            1 <= n <= 3,
            from + n <= s@.len(),
            part == s@.subrange(from as int, to as int),
            to == from + n,
            spec_all_digits(part.subrange(0, k as int)),
            val == spec_digits_val(part.subrange(0, k as int)),
            val <= 999,
        decreases n - k,
    {
        let c = s.get_char(from + k);
        let u = c as u32;
        if u < 48 || u > 57 {
            proof {
                assert(part[k as int] == c);
                assert(!spec_is_digit(c));
            }
            return None;
        }
        proof {
            let prefix = part.subrange(0, k as int);
            let next = part.subrange(0, k as int + 1);
            assert(next.drop_last() =~= prefix);
            assert(next.last() == c);
            assert(spec_all_digits(next));
            lemma_digits_val_bounds(prefix);
        }
        val = val * 10 + (u - 48);
        k = k + 1;
    }
    proof {
        assert(part.subrange(0, n as int) =~= part);
    }
    if val > 255 {
        return None;
    }
    Some(val as u8)
}

/// Parse a dotted-decimal IPv4 literal, exactly as `spec_parse_ipv4` reads it.
pub fn parse_ipv4(s: &str) -> (r: Option<Ipv4Address>)
    ensures
        r == spec_parse_ipv4(s@),
{
    let len = s.unicode_len();
    let ghost whole = s@;
    let i1 = match find_from(s, 0, '.') {
        Some(i) => i,
        None => {
            proof {
                lemma_split_none(whole, '.');
            }
            return None;
        },
    };
    proof {
        lemma_split_at(whole, '.', i1 as int);
    }
    let ghost rest1 = whole.subrange(i1 as int + 1, whole.len() as int);
    let i2 = match find_from(s, i1 + 1, '.') {
        Some(i) => i,
        None => {
            proof {
                assert forall|k: int| 0 <= k < rest1.len() implies rest1[k] != '.' by {
                    assert(rest1[k] == whole[i1 + 1 + k]);
                }
                lemma_split_none(rest1, '.');
            }
            return None;
        },
    };
    proof {
        assert(rest1[i2 - i1 - 1] == '.');
        assert forall|k: int| 0 <= k < i2 - i1 - 1 implies rest1[k] != '.' by {
            assert(rest1[k] == whole[i1 + 1 + k]);
        }
        lemma_split_at(rest1, '.', i2 - i1 - 1);
        assert(rest1.subrange(0, i2 - i1 - 1) =~= whole.subrange(i1 as int + 1, i2 as int));
        assert(rest1.subrange(i2 - i1 - 1 + 1, rest1.len() as int) =~= whole.subrange(
            i2 as int + 1,
            whole.len() as int,
        ));
    }
    let ghost rest2 = whole.subrange(i2 as int + 1, whole.len() as int);
    let i3 = match find_from(s, i2 + 1, '.') {
        Some(i) => i,
        None => {
            proof {
                assert forall|k: int| 0 <= k < rest2.len() implies rest2[k] != '.' by {
                    assert(rest2[k] == whole[i2 + 1 + k]);
                }
                lemma_split_none(rest2, '.');
            }
            return None;
        },
    };
    proof {
        assert(rest2[i3 - i2 - 1] == '.');
        assert forall|k: int| 0 <= k < i3 - i2 - 1 implies rest2[k] != '.' by {
            assert(rest2[k] == whole[i2 + 1 + k]);
        }
        lemma_split_at(rest2, '.', i3 - i2 - 1);
        assert(rest2.subrange(0, i3 - i2 - 1) =~= whole.subrange(i2 as int + 1, i3 as int));
        assert(rest2.subrange(i3 - i2 - 1 + 1, rest2.len() as int) =~= whole.subrange(
            i3 as int + 1,
            whole.len() as int,
        ));
    }
    let ghost rest3 = whole.subrange(i3 as int + 1, whole.len() as int);
    match find_from(s, i3 + 1, '.') {
        Some(i4) => {
            proof {
                assert(rest3[i4 - i3 - 1] == '.');
                assert forall|k: int| 0 <= k < i4 - i3 - 1 implies rest3[k] != '.' by {
                    assert(rest3[k] == whole[i3 + 1 + k]);
                }
                lemma_split_at(rest3, '.', i4 - i3 - 1);
                lemma_split_nonempty(rest3.subrange(i4 - i3 - 1 + 1, rest3.len() as int), '.');
                assert(spec_split(whole, '.').len() >= 5);
            }
            return None;
        },
        None => {
            proof {
                assert forall|k: int| 0 <= k < rest3.len() implies rest3[k] != '.' by {
                    assert(rest3[k] == whole[i3 + 1 + k]);
                }
                lemma_split_none(rest3, '.');
            }
        },
    }
    let a = parse_octet(s, 0, i1);
    let b = parse_octet(s, i1 + 1, i2);
    let c = parse_octet(s, i2 + 1, i3);
    let d = parse_octet(s, i3 + 1, len);
    proof {
        let parts = spec_split(whole, '.');
        let s3 = spec_split(rest3, '.');
        let s2 = spec_split(rest2, '.');
        let s1 = spec_split(rest1, '.');
        assert(s3 == seq![rest3]);
        assert(s2 == seq![whole.subrange(i2 as int + 1, i3 as int)] + s3);
        assert(s1 == seq![whole.subrange(i1 as int + 1, i2 as int)] + s2);
        assert(parts == seq![whole.subrange(0, i1 as int)] + s1);
        assert(parts.len() == 4);
        assert(parts[0] == whole.subrange(0, i1 as int));
        assert(parts[1] == whole.subrange(i1 as int + 1, i2 as int));
        assert(parts[2] == whole.subrange(i2 as int + 1, i3 as int));
        assert(parts[3] == rest3);
    }
    match (a, b, c, d) {
        (Some(a), Some(b), Some(c), Some(d)) => {
            proof {
                let parts = spec_split(whole, '.');
                assert forall|k: int| 0 <= k < 4 implies spec_is_octet(#[trigger] parts[k]) by {
                    if k == 0 {
                        assert(spec_is_octet(parts[0]));
                    } else if k == 1 {
                        assert(spec_is_octet(parts[1]));
                    } else if k == 2 {
                        assert(spec_is_octet(parts[2]));
                    } else {
                        assert(spec_is_octet(parts[3]));
                    }
                }
            }
            Some(Ipv4Address { o0: a, o1: b, o2: c, o3: d })
        },
        _ => None,
    }
}

} // verus!
