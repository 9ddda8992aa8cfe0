use vstd::prelude::*;
use crate::index::{skip_spaces, lemma_skip_spaces};
use crate::text::{bytes_eq, is_space, is_space_byte, split_lines, split_lines_vec, subvec};

verus! {

/// `s` without its trailing whitespace.
pub open spec fn trim_end(s: Seq<u8>) -> Seq<u8>
    decreases s.len(),
{
    if s.len() > 0 && is_space(s.last()) {
        trim_end(s.drop_last())
    } else {
        s
    }
}

/// `s` without its leading and trailing whitespace: how both a candidate
/// server and each stored line are read before they are compared.
pub open spec fn trim(s: Seq<u8>) -> Seq<u8> {
    trim_end(s.skip(skip_spaces(s)))
}

/// Copy of `v` without its leading and trailing whitespace.
pub fn trim_vec(v: &Vec<u8>) -> (r: Vec<u8>)
    ensures
        r@ == trim(v@),
{
    proof {
        assert(v@.skip(0) =~= v@);
        lemma_skip_spaces(v@);
    }
    let a = crate::index::scan_spaces(v, 0);
    let mut b: usize = v.len();
    proof {
        assert(v@.subrange(a as int, b as int) =~= v@.skip(a as int));
    }
    while b > a && is_space_byte(v[b - 1])
        invariant
            a <= b <= v@.len(),
            trim_end(v@.subrange(a as int, b as int)) == trim_end(v@.skip(a as int)),
        decreases b,
    {
        proof {
            let t = v@.subrange(a as int, b as int);
            assert(t.last() == v@[b - 1]);
            assert(t.drop_last() =~= v@.subrange(a as int, b - 1));
        }
        b -= 1;
    }
    proof {
        let t = v@.subrange(a as int, b as int);
        if t.len() > 0 {
            assert(t.last() == v@[b - 1]);
        }
        assert(trim_end(t) == t);
    }
    subvec(v, a, b)
}

/// Whether some line of the stored server list is, after trimming, the given
/// server.
pub open spec fn server_listed(list: Seq<u8>, ip: Seq<u8>) -> bool {
    exists|k: int|
        0 <= k < split_lines(list).len() && trim(#[trigger] split_lines(list)[k]) == trim(ip)
}

pub fn server_listed_vec(list: &Vec<u8>, ip: &Vec<u8>) -> (r: bool)
    ensures
        r == server_listed(list@, ip@),
{
    let lines = split_lines_vec(list);
    let trimmed_ip = trim_vec(ip);
    let ghost lsv = split_lines(list@);
    let mut k: usize = 0;
    while k < lines.len()
        invariant
            k <= lines@.len(),
            lines@.map_values(|l: Vec<u8>| l@) == lsv,
            lsv == split_lines(list@),
            trimmed_ip@ == trim(ip@),
            forall|j: int| 0 <= j < k ==> trim(#[trigger] lsv[j]) != trim(ip@),
        decreases lines@.len() - k,
    {
        let trimmed_line = trim_vec(&lines[k]);
        proof {
            assert(lines@[k as int]@ == lsv[k as int]);
        }
        if bytes_eq(&trimmed_line, &trimmed_ip) {
            proof {
                assert(trim(lsv[k as int]) == trim(ip@));
            }
            return true;
        }
        k += 1;
    }
    false
}

/// The bytes of `http://`.
pub open spec fn scheme_http() -> Seq<u8> {
    seq![104u8, 116, 116, 112, 58, 47, 47]
}

/// The bytes of `https://`.
pub open spec fn scheme_https() -> Seq<u8> {
    seq![104u8, 116, 116, 112, 115, 58, 47, 47]
}

/// A trusted server must name its protocol: its URL begins with `http://` or
/// `https://`.
pub open spec fn has_supported_scheme(ip: Seq<u8>) -> bool {
    scheme_http().is_prefix_of(ip) || scheme_https().is_prefix_of(ip)
}

/// Whether `prefix` is a prefix of `v`.
fn starts_with(v: &Vec<u8>, prefix: &[u8]) -> (r: bool)
    ensures
        r == prefix@.is_prefix_of(v@),
{
    if prefix.len() > v.len() {
        return false;
    }
    let mut k: usize = 0;
    while k < prefix.len()
        invariant
            k <= prefix@.len() <= v@.len(),
            forall|j: int| 0 <= j < k ==> prefix@[j] == v@[j],
        decreases prefix@.len() - k,
    {
        if prefix[k] != v[k] {
            proof {
                assert(v@.subrange(0, prefix@.len() as int)[k as int] == v@[k as int]);
            }
            return false;
        }
        k += 1;
    }
    proof {
        assert(prefix@ =~= v@.subrange(0, prefix@.len() as int));
    }
    true
}

pub fn supported_scheme(ip: &Vec<u8>) -> (r: bool)
    ensures
        r == has_supported_scheme(ip@),
{
    let http: [u8; 7] = [104, 116, 116, 112, 58, 47, 47];
    let https: [u8; 8] = [104, 116, 116, 112, 115, 58, 47, 47];
    proof {
        assert(http@ =~= scheme_http());
        assert(https@ =~= scheme_https());
    }
    starts_with(ip, &http) || starts_with(ip, &https)
}

/// What adding a trusted server decides, once its list membership, its
/// reachability (or a force flag) and its scheme are known. Only `Append`
/// leads to the confirmation prompt and the write; the others are reported
/// and nothing is stored.
#[derive(Debug, Clone, Copy, PartialEq, Eq, Structural)]
pub enum AddServerDecision {
    Append,
    AlreadyListed,
    MissingScheme,
    Unreachable,
}

pub open spec fn add_server_decision_spec(
    already_listed: bool,
    reachable: bool,
    has_scheme: bool,
) -> AddServerDecision {
    if !already_listed && reachable && has_scheme {
        AddServerDecision::Append
    } else if already_listed {
        AddServerDecision::AlreadyListed
    } else if !has_scheme {
        AddServerDecision::MissingScheme
    } else {
        AddServerDecision::Unreachable
    }
}

/// Decides whether a candidate server is appended to the trusted list;
/// `reachable` is the caller's reachability probe, already weakened by any
/// force flag.
pub fn add_server_decision(already_listed: bool, reachable: bool, has_scheme: bool) -> (r:
    AddServerDecision)
    ensures
        r == add_server_decision_spec(already_listed, reachable, has_scheme),
{
    if !already_listed && reachable && has_scheme {
        AddServerDecision::Append
    } else if already_listed {
        AddServerDecision::AlreadyListed
    } else if !has_scheme {
        AddServerDecision::MissingScheme
    } else {
        AddServerDecision::Unreachable
    }
}

} // verus!
