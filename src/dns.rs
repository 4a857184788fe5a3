//! Decisions of the authoritative responder for the `.roxy` zone: which
//! addresses answer a query, and what reply a question gets.
use vstd::prelude::*;

use crate::domain::roxy_suffix;
use crate::router::trim_trailing_dots;
use crate::text::{chars_of, ends_with, ends_with_exec, lower_of, lowercase, slice_chars};

verus! {

/// Docker Desktop's host gateway address.
pub const DOCKER_HOST_IP: [u8; 4] = [192, 168, 65, 254];

/// Seconds a `.roxy` answer may be cached.
pub const ANSWER_TTL: u32 = 1;

/// Where a query came from.
#[derive(Debug, Clone, Copy, PartialEq, Eq)]
pub enum QuerySource {
    V4([u8; 4]),
    V6Loopback,
    V6Other,
}

pub open spec fn is_docker_network(ip: [u8; 4]) -> bool {
    (ip[0] == 172 && 17 <= ip[1] && ip[1] <= 31) || (ip[0] == 192 && ip[1] == 168 && ip[2] == 65)
}

/// RFC 1918 private ranges.
pub open spec fn is_private(ip: [u8; 4]) -> bool {
    ip[0] == 10 || (ip[0] == 172 && 16 <= ip[1] && ip[1] <= 31) || (ip[0] == 192 && ip[1] == 168)
}

/// Picks the addresses that answer a query from a given source: the LAN
/// address for the host itself and the LAN, the Docker host gateway for
/// containers, both when the source is unknown.
#[derive(Debug, Clone, Copy)]
pub struct IpResolver {
    pub lan_ip: [u8; 4],
    pub docker_host_ip: [u8; 4],
}

/// The addresses owed to `source`.
pub open spec fn answer_ips(r: IpResolver, source: QuerySource) -> Seq<[u8; 4]> {
    match source {
        QuerySource::V6Loopback => seq![r.lan_ip],
        QuerySource::V6Other => seq![r.docker_host_ip, r.lan_ip],
        QuerySource::V4(ip) => if ip[0] == 127 {
            seq![r.lan_ip]
        } else if is_docker_network(ip) {
            seq![r.docker_host_ip]
        } else if is_private(ip) {
            seq![r.lan_ip]
        } else {
            seq![r.docker_host_ip, r.lan_ip]
        },
    }
}

impl IpResolver {
    pub fn new(lan_ip: [u8; 4]) -> (r: IpResolver)
        ensures
            r.lan_ip == lan_ip,
            r.docker_host_ip == DOCKER_HOST_IP,
    {
        IpResolver { lan_ip, docker_host_ip: DOCKER_HOST_IP }
    }

    pub fn resolve_for_source(&self, source: QuerySource) -> (r: Vec<[u8; 4]>)
        ensures
            r@ == answer_ips(*self, source),
    {
        let mut out: Vec<[u8; 4]> = Vec::new();
        match source {
            QuerySource::V6Loopback => {
                out.push(self.lan_ip);
            },
            QuerySource::V6Other => {
                out.push(self.docker_host_ip);
                out.push(self.lan_ip);
            },
            QuerySource::V4(ip) => {
                if ip[0] == 127 {
                    out.push(self.lan_ip);
                } else if (ip[0] == 172 && 17 <= ip[1] && ip[1] <= 31) || (ip[0] == 192 && ip[1]
                    == 168 && ip[2] == 65) {
                    out.push(self.docker_host_ip);
                } else if ip[0] == 10 || (ip[0] == 172 && 16 <= ip[1] && ip[1] <= 31) || (ip[0]
                    == 192 && ip[1] == 168) {
                    out.push(self.lan_ip);
                } else {
                    out.push(self.docker_host_ip);
                    out.push(self.lan_ip);
                }
            },
        }
        assert(out@ =~= answer_ips(*self, source));
        out
    }
}

/// The record type a question asks for.
#[derive(Debug, Clone, Copy, PartialEq, Eq, Structural)]
pub enum QueryKind {
    A,
    Aaaa,
    Any,
    Other,
}

#[derive(Debug, Clone, Copy, PartialEq, Eq, Structural)]
pub enum ResponseCode {
    NoError,
    FormatError,
    Refused,
}

/// What a reply holds, short of its wire form.
#[derive(Debug, Clone, PartialEq, Eq)]
pub struct ReplyPlan {
    pub rcode: ResponseCode,
    /// The authoritative-answer flag; response and recursion-desired are
    /// always set.
    pub authoritative: bool,
    /// Whether the question is echoed.
    pub echo_question: bool,
    /// One `A` record per address, in order.
    pub a_records: Vec<[u8; 4]>,
    /// Whether an `AAAA` record for `::1` follows.
    pub aaaa_loopback: bool,
}

/// A query name lies in the zone: lowercased, trailing dots removed, it
/// ends with `.roxy`.
pub open spec fn in_zone(qname: Seq<char>) -> bool {
    ends_with(trim_trailing_dots(lower_of(qname)), roxy_suffix())
}

pub fn is_in_zone(qname: &str) -> (r: bool)
    ensures
        r == in_zone(qname@),
{
    let lower = lowercase(qname);
    let v = chars_of(lower.as_str());
    let mut n: usize = v.len();
    assert(v@.subrange(0, n as int) =~= v@);
    while n > 0 && v[n - 1] == '.'
        invariant
            n <= v@.len(),
            v@ == lower_of(qname@),
            trim_trailing_dots(v@) == trim_trailing_dots(v@.subrange(0, n as int)),
        decreases n,
    {
        assert(v@.subrange(0, n as int).drop_last() =~= v@.subrange(0, n - 1));
        n = n - 1;
    }
    let trimmed = slice_chars(&v, 0, n);
    let suffix: Vec<char> = vec!['.', 'r', 'o', 'x', 'y'];
    assert(suffix@ =~= roxy_suffix());
    ends_with_exec(&trimmed, &suffix)
}

/// The reply owed to a question, or to a query with none (`None`): format
/// error without a question, refusal outside the zone, otherwise an
/// authoritative answer by record type.
pub open spec fn reply_for(question: Option<(Seq<char>, QueryKind)>, ips: Seq<[u8; 4]>) -> (
    ResponseCode,
    bool,
    bool,
    Seq<[u8; 4]>,
    bool,
) {
    match question {
        None => (ResponseCode::FormatError, false, false, Seq::empty(), false),
        Some((name, kind)) => if !in_zone(name) {
            (ResponseCode::Refused, false, false, Seq::empty(), false)
        } else {
            match kind {
                QueryKind::A => (ResponseCode::NoError, true, true, ips, false),
                QueryKind::Aaaa => (ResponseCode::NoError, true, true, Seq::empty(), true),
                QueryKind::Any => (ResponseCode::NoError, true, true, ips, true),
                QueryKind::Other => (ResponseCode::NoError, true, true, Seq::empty(), false),
            }
        },
    }
}

impl ReplyPlan {
    pub open spec fn spec_view(&self) -> (ResponseCode, bool, bool, Seq<[u8; 4]>, bool) {
        (self.rcode, self.authoritative, self.echo_question, self.a_records@, self.aaaa_loopback)
    }
}

/// Plans the reply to a parsed query; `question` is its first question's
/// name and type, `None` when it has none or did not parse.
pub fn plan_reply(question: Option<(&str, QueryKind)>, ips: &Vec<[u8; 4]>) -> (r: ReplyPlan)
    ensures
        r.spec_view() == reply_for(
            match question {
                Some((n, k)) => Some((n@, k)),
                None => None,
            },
            ips@,
        ),
{
    match question {
        None => ReplyPlan {
            rcode: ResponseCode::FormatError,
            authoritative: false,
            echo_question: false,
            a_records: Vec::new(),
            aaaa_loopback: false,
        },
        Some((name, kind)) => {
            if !is_in_zone(name) {
                return ReplyPlan {
                    rcode: ResponseCode::Refused,
                    authoritative: false,
                    echo_question: false,
                    a_records: Vec::new(),
                    aaaa_loopback: false,
                };
            }
            let mut a_records: Vec<[u8; 4]> = Vec::new();
            if kind == QueryKind::A || kind == QueryKind::Any {
                let mut i: usize = 0;
                while i < ips.len()
                    invariant
                        i <= ips@.len(),
                        a_records@ == ips@.subrange(0, i as int),
                    decreases ips@.len() - i,
                {
                    a_records.push(ips[i]);
                    i = i + 1;
                    assert(a_records@ =~= ips@.subrange(0, i as int));
                }
                assert(ips@.subrange(0, i as int) =~= ips@);
            }
            ReplyPlan {
                rcode: ResponseCode::NoError,
                authoritative: true,
                echo_question: true,
                a_records,
                aaaa_loopback: kind == QueryKind::Aaaa || kind == QueryKind::Any,
            }
        },
    }
}

/// The transaction ID of a raw query: its first two bytes, big-endian, or
/// zero when it is shorter.
pub fn transaction_id(query: &[u8]) -> (r: u16)
    ensures
        query@.len() >= 2 ==> r == query@[0] as u16 * 256 + query@[1] as u16,
        query@.len() < 2 ==> r == 0,
{
    if query.len() >= 2 {
        (query[0] as u16) * 256 + (query[1] as u16)
    } else {
        0
    }
}

} // verus!
