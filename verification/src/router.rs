//! Sniffing Connection Router: the one-shot routing decision made for each
//! accepted connection. The caller peeks the first bytes of the connection
//! without consuming them; this module parses as much of an HTTP request
//! line as those bytes hold and picks a destination from an ordered prefix
//! table. Incomplete or malformed peeked data is not an error: it yields no
//! routing signal and falls back to the default destination.

use vstd::prelude::*;

verus! {

/// One routing rule: connections whose request path starts with `prefix`
/// are dialed to `dest` (a host:port, kept as bytes).
#[derive(Clone, Debug, PartialEq, Eq)]
pub struct Route {
    pub prefix: Vec<u8>,
    pub dest: Vec<u8>,
}

/// An ordered prefix table, consulted first match wins, with a default
/// destination for connections that give no routing signal.
#[derive(Clone, Debug, PartialEq, Eq)]
pub struct RoutingTable {
    pub routes: Vec<Route>,
    pub default_dest: Vec<u8>,
}

/// How far the peeked bytes got through an HTTP request parse. `Incomplete`
/// and `Invalid` both route to the default destination; they are kept apart
/// so the caller can log malformed traffic distinctly.
#[derive(Clone, Copy, Debug, PartialEq, Eq)]
pub enum ParseStatus {
    Complete,
    Incomplete,
    Invalid,
}

/// `s` begins with `p`.
pub open spec fn starts_with(s: Seq<u8>, p: Seq<u8>) -> bool {
    p.len() <= s.len() && s.subrange(0, p.len() as int) == p
}

/// The destination of the first route whose prefix `path` starts with,
/// if any.
pub open spec fn first_match(routes: Seq<Route>, path: Seq<u8>) -> Option<Seq<u8>>
    decreases routes.len(),
{
    if routes.len() == 0 {
        None
    } else if starts_with(path, routes[0].prefix@) {
        Some(routes[0].dest@)
    } else {
        first_match(routes.skip(1), path)
    }
}

/// The routing rule: a parsed path is matched against the table in order,
/// first match wins; no path, or no matching prefix, falls back to the
/// default destination.
pub open spec fn decide_spec(t: RoutingTable, path: Option<Seq<u8>>) -> Seq<u8> {
    match path {
        Some(p) => match first_match(t.routes@, p) {
            Some(d) => d,
            None => t.default_dest@,
        },
        None => t.default_dest@,
    }
}

/// What an HTTP request-line parse recovers from a peeked byte prefix: how
/// far it got (complete, incomplete or invalid), and the request path —
/// present as soon as the bytes reach past the request target, absent
/// while they stop short of it or are malformed. A function of the bytes
/// alone.
pub uninterp spec fn sniffed(buf: Seq<u8>) -> (ParseStatus, Option<Seq<u8>>);

/// The path half of `sniffed`: the routing signal.
pub open spec fn sniffed_path(buf: Seq<u8>) -> Option<Seq<u8>> {
    sniffed(buf).1
}

/// Relies on httparse::Request::parse: a tolerant HTTP/1.x request parse
/// over a possibly-truncated buffer. The parse is a pure function of the
/// bytes; its `path` field is set once the bytes reach past the request
/// target. A parse error yields no path here, so malformed bytes give no
/// routing signal.
#[verifier::external_body]
pub(crate) fn sniff(buf: &[u8]) -> (r: (ParseStatus, Option<Vec<u8>>))
    ensures
        r.0 == sniffed(buf@).0,
        match r.1 {
            Some(p) => sniffed(buf@).1 == Some(p@),
            None => sniffed(buf@).1 is None,
        },
        r.0 is Invalid ==> r.1 is None,
{
    let mut headers = [httparse::EMPTY_HEADER; 128];
    let mut request = httparse::Request::new(&mut headers);
    match request.parse(buf) {
        Ok(httparse::Status::Complete(_)) => {
            (ParseStatus::Complete, request.path.map(|p| p.as_bytes().to_vec()))
        }
        Ok(httparse::Status::Partial) => {
            (ParseStatus::Incomplete, request.path.map(|p| p.as_bytes().to_vec()))
        }
        Err(_) => (ParseStatus::Invalid, None),
    }
}

/// `s` begins with `p`, decided byte by byte.
pub fn slice_starts_with(s: &[u8], p: &[u8]) -> (r: bool)
    ensures
        r == starts_with(s@, p@),
{
    if p.len() > s.len() {
        return false;
    }
    let mut i: usize = 0;
    while i < p.len()
        invariant
            i <= p.len() <= s.len(),
            forall|j: int| 0 <= j < i ==> s@[j] == p@[j],
        decreases p.len() - i,
    {
        if s[i] != p[i] {
            proof {
                assert(s@.subrange(0, p@.len() as int)[i as int] == s@[i as int]);
            }
            return false;
        }
        i += 1;
    }
    proof {
        assert(s@.subrange(0, p@.len() as int) =~= p@);
    }
    true
}

/// An owned copy of a byte vector.
fn copy_bytes(v: &Vec<u8>) -> (r: Vec<u8>)
    ensures
        r@ == v@,
{
    let r = v.clone();
    proof {
        assert(r@ =~= v@);
    }
    r
}

/// Picks the destination for a parsed path (or for the absence of one)
/// from the table: exactly the routing rule of `decide_spec`.
pub fn decide(t: &RoutingTable, path: &Option<Vec<u8>>) -> (dest: Vec<u8>)
    ensures
        dest@ == decide_spec(*t, opt_bytes_view(*path)),
{
    let p = match path {
        Some(p) => p,
        None => {
            return copy_bytes(&t.default_dest);
        }
    };
    proof {
        assert(t.routes@.skip(0) =~= t.routes@);
        assert(opt_bytes_view(*path) == Some(p@));
    }
    let mut i: usize = 0;
    while i < t.routes.len()
        invariant
            i <= t.routes@.len(),
            opt_bytes_view(*path) == Some(p@),
            first_match(t.routes@.skip(i as int), p@) == first_match(t.routes@, p@),
        decreases t.routes@.len() - i,
    {
        let ghost pre = t.routes@.skip(i as int);
        if slice_starts_with(p.as_slice(), t.routes[i].prefix.as_slice()) {
            proof {
                assert(pre[0] == t.routes@[i as int]);
                assert(starts_with(p@, pre[0].prefix@));
                assert(first_match(pre, p@) == Some(pre[0].dest@));
                assert(decide_spec(*t, opt_bytes_view(*path)) == t.routes@[i as int].dest@);
            }
            let dest = copy_bytes(&t.routes[i].dest);
            assert(dest@ == t.routes@[i as int].dest@);
            return dest;
        }
        proof {
            assert(pre[0] == t.routes@[i as int]);
            assert(pre.skip(1) =~= t.routes@.skip(i + 1 as int));
        }
        i += 1;
    }
    proof {
        assert(t.routes@.skip(i as int) =~= Seq::<Route>::empty());
    }
    copy_bytes(&t.default_dest)
}

/// The view of an optional byte vector.
pub open spec fn opt_bytes_view(p: Option<Vec<u8>>) -> Option<Seq<u8>> {
    match p {
        Some(v) => Some(v@),
        None => None,
    }
}

/// The per-connection routing decision: parses what the peeked bytes hold
/// of an HTTP request line and applies the table's rule to the recovered
/// path. Returns the destination to dial and how far the parse got, so the
/// caller can log malformed traffic; the decision itself is a function of
/// the table and the peeked bytes alone, so concurrent connections cannot
/// influence one another.
pub fn route_peeked(t: &RoutingTable, buf: &[u8]) -> (r: (Vec<u8>, ParseStatus))
    ensures
        r.0@ == decide_spec(*t, sniffed_path(buf@)),
        r.1 == sniffed(buf@).0,
        r.1 is Invalid ==> r.0@ == t.default_dest@,
{
    let (status, path) = sniff(buf);
    let dest = decide(t, &path);
    (dest, status)
}

/// Law: a peek that recovers no path — too short for a full request
/// target, or malformed — always routes to the default destination.
pub proof fn lemma_no_signal_routes_to_default(t: RoutingTable, buf: Seq<u8>)
    requires
        sniffed_path(buf) is None,
    ensures
        decide_spec(t, sniffed_path(buf)) == t.default_dest@,
{
}

/// The first match in `routes` is at position `i`.
proof fn lemma_first_match_at(routes: Seq<Route>, path: Seq<u8>, i: int)
    requires
        0 <= i < routes.len(),
        starts_with(path, routes[i].prefix@),
        forall|j: int| 0 <= j < i ==> !starts_with(path, routes[j].prefix@),
    ensures
        first_match(routes, path) == Some(routes[i].dest@),
    decreases i,
{
    if i > 0 {
        assert(forall|j: int|
            0 <= j < i - 1 ==> routes.skip(1)[j] == routes[j + 1] && !starts_with(
                path,
                routes[j + 1].prefix@,
            ));
        assert(routes.skip(1)[i - 1] == routes[i]);
        lemma_first_match_at(routes.skip(1), path, i - 1);
    }
}

/// Law: the table is consulted in order and the first match wins — when a
/// path starts with route `i`'s prefix and with no earlier route's, the
/// decision is route `i`'s destination. In particular a table whose first
/// entry is the API prefix sends every path under it to the API backend.
pub proof fn lemma_first_match_wins(t: RoutingTable, path: Seq<u8>, i: int)
    requires
        0 <= i < t.routes@.len(),
        starts_with(path, t.routes@[i].prefix@),
        forall|j: int| 0 <= j < i ==> !starts_with(path, t.routes@[j].prefix@),
    ensures
        decide_spec(t, Some(path)) == t.routes@[i].dest@,
{
    lemma_first_match_at(t.routes@, path, i);
}

/// Law: the routing decision is a pure function of the table and the
/// connection's own peeked bytes — two connections presenting the same
/// bytes to the same table are dialed to the same destination, and no
/// shared mutable state lets one connection's decision touch another's.
pub proof fn lemma_routing_is_deterministic(
    t: &RoutingTable,
    buf: &[u8],
    r1: (Vec<u8>, ParseStatus),
    r2: (Vec<u8>, ParseStatus),
)
    requires
        call_ensures(route_peeked, (t, buf), r1),
        call_ensures(route_peeked, (t, buf), r2),
    ensures
        r1.0@ == r2.0@,
{
}

/// Law: a path that matches no prefix in the table routes to the default
/// destination.
pub proof fn lemma_no_match_routes_to_default(t: RoutingTable, path: Seq<u8>)
    requires
        forall|i: int| 0 <= i < t.routes@.len() ==> !starts_with(path, t.routes@[i].prefix@),
    ensures
        decide_spec(t, Some(path)) == t.default_dest@,
{
    lemma_first_match_none(t.routes@, path);
}

/// No prefix in `routes` matches `path`, so there is no first match.
proof fn lemma_first_match_none(routes: Seq<Route>, path: Seq<u8>)
    requires
        forall|i: int| 0 <= i < routes.len() ==> !starts_with(path, routes[i].prefix@),
    ensures
        first_match(routes, path) is None,
    decreases routes.len(),
{
    if routes.len() > 0 {
        assert(routes[0] == routes.skip(0)[0]);
        lemma_first_match_none(routes.skip(1), path);
    }
}

} // verus!
