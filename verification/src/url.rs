//! Endpoint URL composition: joining the configured base host with an
//! endpoint name, with POSIX-style path-join semantics (a single separator
//! between the two, no separator duplicated or dropped).

use vstd::prelude::*;

verus! {

/// What joining a host and an endpoint yields: the endpoint alone when the
/// host is empty, otherwise the host, a separator unless the host already
/// ends in one, and the endpoint.
pub open spec fn join_url_spec(host: Seq<char>, endpoint: Seq<char>) -> Seq<char> {
    if host.len() == 0 {
        endpoint
    } else if host.last() == '/' {
        host + endpoint
    } else {
        host + seq!['/'] + endpoint
    }
}

/// Compose the target URL for an endpoint under a base host.
pub fn join_url(host: &str, endpoint: &str) -> (r: String)
    ensures
        r@ == join_url_spec(host@, endpoint@),
{
    let n = host.unicode_len();
    if n == 0 {
        String::from_str(endpoint)
    } else if host.get_char(n - 1) == '/' {
        let out = String::from_str(host).concat(endpoint);
        out
    } else {
        let mut out = String::from_str(host);
        out.append("/");
        out.append(endpoint);
        proof {
            reveal_strlit("/");
            assert(out@ =~= host@ + seq!['/'] + endpoint@);
        }
        out
    }
}

/// Composition puts exactly one separator between host and endpoint: the
/// result is the host with any single trailing separator removed, one
/// separator, then the endpoint; it starts with the host and ends with the
/// endpoint. A host whose last two characters are both separators is left
/// out: joining keeps its doubled separator as it stands.
pub proof fn lemma_join_url_single_separator(host: Seq<char>, endpoint: Seq<char>)
    requires
        host.len() > 0,
        host.len() >= 2 ==> !(host[host.len() - 1] == '/' && host[host.len() - 2] == '/'),
    ensures
        ({
            let r = join_url_spec(host, endpoint);
            let stem = if host.last() == '/' {
                host.take(host.len() - 1)
            } else {
                host
            };
            &&& r == stem + seq!['/'] + endpoint
            &&& r.len() == stem.len() + 1 + endpoint.len()
            &&& r.subrange(0, host.len() as int) == host
            &&& r.subrange(r.len() - endpoint.len(), r.len() as int) == endpoint
            &&& (stem.len() > 0 ==> stem.last() != '/')
        }),
{
    let r = join_url_spec(host, endpoint);
    let stem = if host.last() == '/' {
        host.take(host.len() - 1)
    } else {
        host
    };
    if host.last() == '/' {
        assert(r =~= stem + seq!['/'] + endpoint);
    }
    assert(r == stem + seq!['/'] + endpoint);
    assert(r.subrange(0, host.len() as int) =~= host);
    assert(r.subrange(r.len() - endpoint.len(), r.len() as int) =~= endpoint);
}

} // verus!
