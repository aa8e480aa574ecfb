//! Console API helpers: errors of API calls and the event stream URL.
use vstd::prelude::*;

use crate::display::join;
use vstd::string::StringSliceAdditionalSpecFns;
use crate::text::{push_char, push_str, string_of};

verus! {

/// An error of a console API call: the HTTP status when there was one, and a message.
#[derive(Clone, Debug)]
pub struct ApiError {
    pub status: Option<u16>,
    pub message: String,
}

impl ApiError {
    pub fn new(status: Option<u16>, message: &str) -> (e: Self)
        ensures
            e.status == status,
            e.message@ == message@,
    {
        ApiError { status, message: string_of(message) }
    }

    /// Whether the server refused the caller's credentials (401 or 403).
    pub fn is_auth_error(&self) -> (r: bool)
        ensures
            r == (self.status == Some(401u16) || self.status == Some(403u16)),
    {
        match self.status {
            Some(code) => code == 401 || code == 403,
            None => false,
        }
    }
}

/// Bytes that `encodeURIComponent` leaves as they are.
pub open spec fn is_unreserved(b: u8) -> bool {
    ||| 0x41 <= b <= 0x5a
    ||| 0x61 <= b <= 0x7a
    ||| 0x30 <= b <= 0x39
    ||| b == 0x2d || b == 0x5f || b == 0x2e || b == 0x21 || b == 0x7e
    ||| b == 0x2a || b == 0x27 || b == 0x28 || b == 0x29
}

/// Upper-case hexadecimal digit for `n < 16`.
pub open spec fn hex_digit(n: u8) -> char {
    if n < 10 {
        (0x30 + n) as char
    } else {
        (0x41 + n - 10) as char
    }
}

/// One byte of a component: itself when unreserved, else `%XX`.
pub open spec fn encode_byte(b: u8) -> Seq<char> {
    if is_unreserved(b) {
        seq![b as char]
    } else {
        seq!['%', hex_digit(b / 16), hex_digit(b % 16)]
    }
}

/// Percent-encoding of a byte string, byte by byte.
pub open spec fn encode_bytes(bs: Seq<u8>) -> Seq<char>
    decreases bs.len(),
{
    if bs.len() == 0 {
        Seq::empty()
    } else {
        encode_bytes(bs.drop_last()) + encode_byte(bs.last())
    }
}

fn hex(n: u8) -> (c: char)
    requires
        n < 16,
    ensures
        c == hex_digit(n),
{
    if n < 10 {
        (0x30u8 + n) as char
    } else {
        (0x41u8 + n - 10) as char
    }
}

/// `encodeURIComponent`: each UTF-8 byte of the value is kept when it is an
/// unreserved ASCII character and written as `%XX` otherwise.
pub fn encode_component(value: &str) -> (r: String)
    ensures
        r@ == encode_bytes(value.spec_bytes()),
{
    let bytes = value.as_bytes();
    let mut r = String::new();
    let mut i: usize = 0;
    while i < bytes.len()
        invariant
            i <= bytes@.len(),
            bytes@ == value.spec_bytes(),
            r@ == encode_bytes(bytes@.take(i as int)),
        decreases bytes@.len() - i,
    {
        let b = bytes[i];
        assert(bytes@.take(i + 1).drop_last() =~= bytes@.take(i as int));
        let unreserved = (0x41 <= b && b <= 0x5a) || (0x61 <= b && b <= 0x7a) || (0x30 <= b && b <= 0x39)
            || b == 0x2d || b == 0x5f || b == 0x2e || b == 0x21 || b == 0x7e || b == 0x2a || b == 0x27
            || b == 0x28 || b == 0x29;
        if unreserved {
            push_char(&mut r, b as char);
        } else {
            push_char(&mut r, '%');
            push_char(&mut r, hex(b / 16));
            push_char(&mut r, hex(b % 16));
        }
        assert(r@ =~= encode_bytes(bytes@.take(i + 1)));
        i = i + 1;
    }
    assert(bytes@.take(bytes@.len() as int) =~= bytes@);
    r
}

/// `key=value` with both sides encoded.
pub open spec fn query_pair(key: &str, value: &str) -> Seq<char> {
    encode_bytes(key.spec_bytes()) + seq!['='] + encode_bytes(value.spec_bytes())
}

/// The query pairs of the given filters, in the order node, deployment, DNS deployment.
pub open spec fn event_query_pairs(
    node_id: Option<&str>,
    deployment_id: Option<&str>,
    dns_deployment_id: Option<&str>,
) -> Seq<Seq<char>> {
    let a = match node_id {
        Some(v) => seq![query_pair("node_id", v)],
        None => Seq::empty(),
    };
    let b = match deployment_id {
        Some(v) => seq![query_pair("deployment_id", v)],
        None => Seq::empty(),
    };
    let c = match dns_deployment_id {
        Some(v) => seq![query_pair("dns_deployment_id", v)],
        None => Seq::empty(),
    };
    a + b + c
}

/// The event stream URL: the path, then `?` and the pairs joined by `&` when
/// any filter is given.
pub open spec fn spec_events_url(
    node_id: Option<&str>,
    deployment_id: Option<&str>,
    dns_deployment_id: Option<&str>,
) -> Seq<char> {
    let pairs = event_query_pairs(node_id, deployment_id, dns_deployment_id);
    "/api/v1/events"@ + if pairs.len() == 0 {
        Seq::<char>::empty()
    } else {
        seq!['?'] + join(pairs, seq!['&'])
    }
}

fn push_pair(url: &mut String, first: bool, key: &str, value: &str)
    ensures
        final(url)@ == old(url)@ + (if first { seq!['?'] } else { seq!['&'] }) + query_pair(key, value),
{
    if first {
        push_char(url, '?');
    } else {
        push_char(url, '&');
    }
    let k = encode_component(key);
    push_str(url, k.as_str());
    push_char(url, '=');
    let v = encode_component(value);
    push_str(url, v.as_str());
    assert(final(url)@ =~= old(url)@ + (if first { seq!['?'] } else { seq!['&'] }) + query_pair(key, value));
}

/// The URL of the console's event stream for the given filters.
pub fn build_events_url(
    node_id: Option<&str>,
    deployment_id: Option<&str>,
    dns_deployment_id: Option<&str>,
) -> (url: String)
    ensures
        url@ == spec_events_url(node_id, deployment_id, dns_deployment_id),
{
    let mut url = string_of("/api/v1/events");
    let ghost base = url@;
    let mut first = true;
    let ghost mut pairs: Seq<Seq<char>> = Seq::empty();
    if let Some(v) = node_id {
        push_pair(&mut url, first, "node_id", v);
        proof {
            pairs = pairs.push(query_pair("node_id", v));
        }
        first = false;
    }
    assert(first == (pairs.len() == 0));
    assert(first ==> url@ == base);
    assert(!first ==> url@ =~= base + seq!['?'] + join(pairs, seq!['&']));
    if let Some(v) = deployment_id {
        let ghost before = pairs;
        push_pair(&mut url, first, "deployment_id", v);
        proof {
            pairs = pairs.push(query_pair("deployment_id", v));
            assert(pairs.drop_last() =~= before);
        }
        first = false;
    }
    assert(first == (pairs.len() == 0));
    assert(first ==> url@ == base);
    assert(!first ==> url@ =~= base + seq!['?'] + join(pairs, seq!['&']));
    if let Some(v) = dns_deployment_id {
        let ghost before = pairs;
        push_pair(&mut url, first, "dns_deployment_id", v);
        proof {
            pairs = pairs.push(query_pair("dns_deployment_id", v));
            assert(pairs.drop_last() =~= before);
        }
        first = false;
    }
    assert(pairs =~= event_query_pairs(node_id, deployment_id, dns_deployment_id));
    assert(url@ =~= spec_events_url(node_id, deployment_id, dns_deployment_id));
    url
}

} // verus!
