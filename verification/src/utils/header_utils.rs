use vstd::prelude::*;
use vstd::string::StringExecFns;

verus! {

/// One header of a request or a response: its name, in lower case, and its value.
#[derive(Debug, Clone, PartialEq, Eq)]
pub struct Header {
    pub name: String,
    pub value: Vec<u8>,
}

/// The header that names the host to pass a request on to.
pub open spec fn proxy_upstream_host_header() -> Seq<char> {
    "x-llm-proxy-host"@
}

/// The header that names the address to pass a request on to.
pub open spec fn proxy_upstream_header() -> Seq<char> {
    "x-llm-proxy-upstream"@
}

/// The header that names where a request holds its prompt.
pub open spec fn proxy_prompt_location_header() -> Seq<char> {
    "x-llm-prompt"@
}

/// A header that speaks of one hop of a connection only and must not travel on, or
/// that describes a body which the client has already decoded.
pub open spec fn is_hop_header(name: Seq<char>) -> bool {
    ||| name == "connection"@
    ||| name == "te"@
    ||| name == "trailer"@
    ||| name == "keep-alive"@
    ||| name == "proxy-connection"@
    ||| name == "proxy-authenticate"@
    ||| name == "proxy-authorization"@
    ||| name == "transfer-encoding"@
    ||| name == "upgrade"@
    ||| name == "host"@
    ||| name == "content-length"@
    ||| name == "content-encoding"@
}

/// A header that is not passed on upstream: a hop header, or one of the headers by
/// which a request tells the proxy where to send it and where its prompt is.
pub open spec fn is_dropped_upstream(name: Seq<char>) -> bool {
    is_hop_header(name) || name == proxy_upstream_header() || name
        == proxy_prompt_location_header()
}

/// The name of the header that names the host to pass a request on to.
pub fn proxy_upstream_host_header_name() -> (name: &'static str)
    ensures
        name@ == proxy_upstream_host_header(),
{
    "x-llm-proxy-host"
}

/// The name of the header that names the address to pass a request on to.
pub fn proxy_upstream_header_name() -> (name: &'static str)
    ensures
        name@ == proxy_upstream_header(),
{
    "x-llm-proxy-upstream"
}

/// The name of the header that names where a request holds its prompt.
pub fn proxy_prompt_location_header_name() -> (name: &'static str)
    ensures
        name@ == proxy_prompt_location_header(),
{
    "x-llm-prompt"
}

/// Whether `name` is the given word.
fn is_named(name: &String, word: &str) -> (same: bool)
    ensures
        same == (name@ == word@),
{
    let other = String::from_str(word);
    *name == other
}

/// Whether a header of this name is a hop header.
pub fn hop_header(name: &String) -> (hop: bool)
    ensures
        hop == is_hop_header(name@),
{
    is_named(name, "connection") || is_named(name, "te") || is_named(name, "trailer")
        || is_named(name, "keep-alive") || is_named(name, "proxy-connection") || is_named(
        name,
        "proxy-authenticate",
    ) || is_named(name, "proxy-authorization") || is_named(name, "transfer-encoding")
        || is_named(name, "upgrade") || is_named(name, "host") || is_named(
        name,
        "content-length",
    ) || is_named(name, "content-encoding")
}

/// Whether a header of this name stays: any but a hop header, and, on the way
/// upstream, any but the proxy's own.
pub open spec fn stays(name: Seq<char>, upstream: bool) -> bool {
    if upstream {
        !is_dropped_upstream(name)
    } else {
        !is_hop_header(name)
    }
}

/// Keeps of `headers` those that stay, in their order.
fn retain_staying(headers: &mut Vec<Header>, upstream: bool)
    ensures
        final(headers)@ == old(headers)@.filter(|h: Header| stays(h.name@, upstream)),
{
    let ghost keep = |h: Header| stays(h.name@, upstream);
    let ghost all = headers@;
    let mut kept: Vec<Header> = Vec::new();
    let n = headers.len();
    proof {
        reveal(Seq::filter);
        assert(all.skip(n as int).filter(keep) =~= Seq::<Header>::empty());
        assert(all.skip(n as int) =~= Seq::<Header>::empty());
    }
    // the headers are taken off the end one by one, so `kept` grows in reverse
    while headers.len() > 0
        invariant
            all == old(headers)@,
            keep == |h: Header| stays(h.name@, upstream),
            headers@ == all.take(headers@.len() as int),
            headers@.len() <= all.len(),
            kept@.reverse() == all.skip(headers@.len() as int).filter(keep),
        decreases headers@.len(),
    {
        let ghost before = headers@;
        let ghost kept_before = kept@;
        let header = headers.pop().unwrap();
        let ghost i = headers@.len() as int;
        proof {
            assert(headers@ =~= all.take(i));
            assert(header == all[i]);
            lemma_filter_cons(all, i, keep);
        }
        let dropped = hop_header(&header.name) || (upstream && (is_named(
            &header.name,
            "x-llm-proxy-upstream",
        ) || is_named(&header.name, "x-llm-prompt")));
        if !dropped {
            kept.push(header);
            proof {
                assert(kept@.reverse() =~= seq![header] + kept_before.reverse());
            }
        }
    }
    proof {
        assert(all.skip(0) =~= all);
    }
    while kept.len() > 0
        invariant
            headers@ + kept@.reverse() == all.filter(keep),
        decreases kept@.len(),
    {
        let ghost kept_before = kept@;
        let header = kept.pop().unwrap();
        headers.push(header);
        proof {
            assert(kept_before.reverse() =~= seq![header] + kept@.reverse());
            assert(headers@ + kept@.reverse() =~= all.filter(keep));
        }
    }
    proof {
        assert(headers@ + kept@.reverse() =~= headers@);
    }
}

/// Takes the hop headers out of `headers`; the others stay, in their order.
pub fn remove_hop_headers(headers: &mut Vec<Header>)
    ensures
        final(headers)@ == old(headers)@.filter(|h: Header| !is_hop_header(h.name@)),
{
    let ghost before = headers@;
    retain_staying(headers, false);
    proof {
        let staying = |h: Header| stays(h.name@, false);
        let no_hop = |h: Header| !is_hop_header(h.name@);
        assert(staying =~= no_hop);
        assert(before.filter(staying) == before.filter(no_hop));
    }
}

/// The headers to send upstream with a request that came with `headers`: all but the
/// hop headers and the proxy's own, in their order.
pub fn prepare_upstream_headers(headers: Vec<Header>) -> (upstream_headers: Vec<Header>)
    ensures
        upstream_headers@ == headers@.filter(|h: Header| !is_dropped_upstream(h.name@)),
{
    let mut upstream_headers = headers;
    retain_staying(&mut upstream_headers, true);
    proof {
        let staying = |h: Header| stays(h.name@, true);
        let passed_on = |h: Header| !is_dropped_upstream(h.name@);
        assert(staying =~= passed_on);
        assert(headers@.filter(staying) == headers@.filter(passed_on));
    }
    upstream_headers
}

/// Filtering from position `i` on is filtering the entry at `i` and then the rest.
proof fn lemma_filter_cons(all: Seq<Header>, i: int, keep: spec_fn(Header) -> bool)
    requires
        0 <= i < all.len(),
    ensures
        all.skip(i).filter(keep) == if keep(all[i]) {
            seq![all[i]] + all.skip(i + 1).filter(keep)
        } else {
            all.skip(i + 1).filter(keep)
        },
{
    let one = seq![all[i]];
    assert(all.skip(i) =~= one + all.skip(i + 1));
    Seq::filter_distributes_over_add(one, all.skip(i + 1), keep);
    reveal(Seq::filter);
    assert(one.drop_last() =~= Seq::<Header>::empty());
    assert(Seq::<Header>::empty().filter(keep) =~= Seq::<Header>::empty());
    if keep(all[i]) {
        assert(one.filter(keep) =~= one);
    } else {
        assert(one.filter(keep) =~= Seq::<Header>::empty());
        assert(Seq::<Header>::empty() + all.skip(i + 1).filter(keep) =~= all.skip(i + 1).filter(
            keep,
        ));
    }
}

} // verus!
