//! Wire model shared by the parser, the router and the dispatcher: the
//! `Request` and `Response` structures and the ordered association lists
//! used as header / query-parameter mappings.
//!
//! A mapping is a `Vec<(String, String)>`. The binding of a key is its
//! first occurrence; `map_set` updates that occurrence in place, so a map
//! grown only through `map_set` never holds a key twice (last write wins,
//! as in a hash map).

use vstd::prelude::*;
use vstd::string::*;

verus! {

/// One parsed HTTP/1.1 request. Method, url, headers and body are fixed
/// once parsing ends; the connection handle itself stays with the caller,
/// which hands in the remote address and the capture time (milliseconds)
/// as plain values.
pub struct Request {
    pub method: String,
    pub url: String,
    pub headers: Vec<(String, String)>,
    pub body: String,
    pub remote_addr: Option<String>,
    pub timestamp: i64,
    pub query_params: Vec<(String, String)>,
}

/// One HTTP/1.1 response, constructed fresh per request.
pub struct Response {
    pub status_code: u16,
    pub headers: Vec<(String, String)>,
    pub body: String,
}

/// The value bound to `key`: the second component of its first occurrence.
pub open spec fn spec_map_get(
    pairs: Seq<(Seq<char>, Seq<char>)>,
    key: Seq<char>,
) -> Option<Seq<char>>
    decreases pairs.len(),
{
    if pairs.len() == 0 {
        None
    } else if pairs[0].0 == key {
        Some(pairs[0].1)
    } else {
        spec_map_get(pairs.skip(1), key)
    }
}

/// `pairs` with the binding of `key` replaced by `value` in place, or
/// appended when `key` is absent.
pub open spec fn spec_map_set(
    pairs: Seq<(Seq<char>, Seq<char>)>,
    key: Seq<char>,
    value: Seq<char>,
) -> Seq<(Seq<char>, Seq<char>)>
    decreases pairs.len(),
{
    if pairs.len() == 0 {
        seq![(key, value)]
    } else if pairs[0].0 == key {
        seq![(key, value)] + pairs.skip(1)
    } else {
        seq![pairs[0]] + spec_map_set(pairs.skip(1), key, value)
    }
}

fn map_get_from<'a>(pairs: &'a Vec<(String, String)>, key: &String, i: usize) -> (r: Option<
    &'a String,
>)
    requires
        i <= pairs.len(),
    ensures
        match r {
            Some(v) => spec_map_get(pairs.deep_view().skip(i as int), key@) == Some(v@),
            None => spec_map_get(pairs.deep_view().skip(i as int), key@) is None,
        },
    decreases pairs.len() - i,
{
    if i == pairs.len() {
        assert(pairs.deep_view().skip(i as int) =~= Seq::empty());
        None
    } else {
        let ghost s = pairs.deep_view().skip(i as int);
        assert(s[0] == pairs.deep_view()[i as int]);
        if pairs[i].0 == *key {
            Some(&pairs[i].1)
        } else {
            let r = map_get_from(pairs, key, i + 1);
            assert(pairs.deep_view().skip(i as int).skip(1) =~= pairs.deep_view().skip(
                i as int + 1,
            ));
            r
        }
    }
}

/// Looks `key` up in an association-list mapping.
pub fn map_get<'a>(pairs: &'a Vec<(String, String)>, key: &str) -> (r: Option<&'a String>)
    ensures
        match r {
            Some(v) => spec_map_get(pairs.deep_view(), key@) == Some(v@),
            None => spec_map_get(pairs.deep_view(), key@) is None,
        },
{
    let owned = String::from_str(key);
    let r = map_get_from(pairs, &owned, 0);
    assert(pairs.deep_view().skip(0) =~= pairs.deep_view());
    r
}

proof fn lemma_map_set_update(s: Seq<(Seq<char>, Seq<char>)>, key: Seq<char>, value: Seq<char>, i: int)
    requires
        0 <= i < s.len(),
        s[i].0 == key,
        forall|j: int| 0 <= j < i ==> s[j].0 != key,
    ensures
        spec_map_set(s, key, value) =~= s.update(i, (key, value)),
    decreases i,
{
    if i == 0 {
        assert(spec_map_set(s, key, value) =~= seq![(key, value)] + s.skip(1));
    } else {
        lemma_map_set_update(s.skip(1), key, value, i - 1);
        assert(spec_map_set(s, key, value) =~= seq![s[0]] + spec_map_set(s.skip(1), key, value));
        assert(seq![s[0]] + s.skip(1).update(i - 1, (key, value)) =~= s.update(i, (key, value)));
    }
}

proof fn lemma_map_set_push(s: Seq<(Seq<char>, Seq<char>)>, key: Seq<char>, value: Seq<char>)
    requires
        forall|j: int| 0 <= j < s.len() ==> s[j].0 != key,
    ensures
        spec_map_set(s, key, value) =~= s.push((key, value)),
    decreases s.len(),
{
    if s.len() > 0 {
        lemma_map_set_push(s.skip(1), key, value);
        assert(seq![s[0]] + s.skip(1).push((key, value)) =~= s.push((key, value)));
    }
}

/// Binds `key` to `value` in an association-list mapping: the first
/// occurrence of `key` is overwritten, a missing key is appended.
pub fn map_set(pairs: &mut Vec<(String, String)>, key: String, value: String)
    ensures
        final(pairs).deep_view() == spec_map_set(old(pairs).deep_view(), key@, value@),
{
    let mut i: usize = 0;
    while i < pairs.len()
        invariant
            i <= pairs.len(),
            *pairs == *old(pairs),
            forall|j: int| 0 <= j < i ==> pairs.deep_view()[j].0 != key@,
        decreases pairs.len() - i,
    {
        if pairs[i].0 == key {
            proof {
                lemma_map_set_update(pairs.deep_view(), key@, value@, i as int);
            }
            let ghost before = pairs.deep_view();
            pairs.set(i, (key, value));
            proof {
                assert forall|j: int| 0 <= j < pairs@.len() implies pairs.deep_view()[j]
                    == before.update(i as int, (key@, value@))[j] by {
                    if j != i {
                        assert(pairs@[j] == old(pairs)@[j]);
                    }
                }
                assert(pairs.deep_view() =~= before.update(i as int, (key@, value@)));
            }
            return ;
        }
        i = i + 1;
    }
    proof {
        lemma_map_set_push(pairs.deep_view(), key@, value@);
    }
    let ghost before = pairs.deep_view();
    pairs.push((key, value));
    proof {
        assert forall|j: int| 0 <= j < pairs@.len() implies pairs.deep_view()[j] == before.push(
            (key@, value@),
        )[j] by {
            if j < before.len() {
                assert(pairs@[j] == old(pairs)@[j]);
            }
        }
        assert(pairs.deep_view() =~= before.push((key@, value@)));
    }
}

/// The decimal digit `d` as text.
pub open spec fn spec_digit(d: int) -> Seq<char> {
    if d == 0 {
        "0"@
    } else if d == 1 {
        "1"@
    } else if d == 2 {
        "2"@
    } else if d == 3 {
        "3"@
    } else if d == 4 {
        "4"@
    } else if d == 5 {
        "5"@
    } else if d == 6 {
        "6"@
    } else if d == 7 {
        "7"@
    } else if d == 8 {
        "8"@
    } else {
        "9"@
    }
}

/// The decimal rendering of `n`, without sign or leading zeros.
pub open spec fn spec_dec(n: int) -> Seq<char>
    decreases n,
{
    if n < 10 {
        spec_digit(n)
    } else {
        spec_dec(n / 10) + spec_digit(n % 10)
    }
}

fn digit_str(d: u64) -> (r: &'static str)
    requires
        d < 10,
    ensures
        r@ == spec_digit(d as int),
{
    match d {
        0 => "0",
        1 => "1",
        2 => "2",
        3 => "3",
        4 => "4",
        5 => "5",
        6 => "6",
        7 => "7",
        8 => "8",
        _ => "9",
    }
}

/// Renders `n` in decimal.
pub fn dec_string(n: u64) -> (s: String)
    ensures
        s@ == spec_dec(n as int),
    decreases n,
{
    if n < 10 {
        String::from_str(digit_str(n))
    } else {
        let mut s = dec_string(n / 10);
        s.append(digit_str(n % 10));
        s
    }
}

/// The reason phrase written after a status code; codes the core never
/// emits and common success codes are covered, anything else is blank.
pub open spec fn spec_reason(code: u16) -> Seq<char> {
    if code == 200 {
        "OK"@
    } else if code == 201 {
        "Created"@
    } else if code == 400 {
        "Bad Request"@
    } else if code == 404 {
        "Not Found"@
    } else if code == 405 {
        "Method Not Allowed"@
    } else if code == 500 {
        "Internal Server Error"@
    } else if code == 503 {
        "Service Unavailable"@
    } else {
        ""@
    }
}

fn reason_str(code: u16) -> (r: &'static str)
    ensures
        r@ == spec_reason(code),
{
    if code == 200 {
        "OK"
    } else if code == 201 {
        "Created"
    } else if code == 400 {
        "Bad Request"
    } else if code == 404 {
        "Not Found"
    } else if code == 405 {
        "Method Not Allowed"
    } else if code == 500 {
        "Internal Server Error"
    } else if code == 503 {
        "Service Unavailable"
    } else {
        ""
    }
}

/// The header block: one `key: value` line per pair, in list order.
pub open spec fn spec_headers_text(pairs: Seq<(Seq<char>, Seq<char>)>) -> Seq<char>
    decreases pairs.len(),
{
    if pairs.len() == 0 {
        Seq::empty()
    } else {
        pairs[0].0 + ": "@ + pairs[0].1 + "\r\n"@ + spec_headers_text(pairs.skip(1))
    }
}

/// The serialized response: status line, header block, blank line, body.
/// The body is close-delimited; no length header is added beyond what the
/// response already carries.
pub open spec fn spec_response_text(r: Response) -> Seq<char> {
    "HTTP/1.1 "@ + spec_dec(r.status_code as int) + " "@ + spec_reason(r.status_code) + "\r\n"@
        + spec_headers_text(r.headers.deep_view()) + "\r\n"@ + r.body@
}

fn headers_text_from(pairs: &Vec<(String, String)>, i: usize) -> (s: String)
    requires
        i <= pairs.len(),
    ensures
        s@ == spec_headers_text(pairs.deep_view().skip(i as int)),
    decreases pairs.len() - i,
{
    if i == pairs.len() {
        assert(pairs.deep_view().skip(i as int) =~= Seq::empty());
        String::new()
    } else {
        let mut s = pairs[i].0.clone();
        s.append(": ");
        s.append(pairs[i].1.as_str());
        s.append("\r\n");
        let rest = headers_text_from(pairs, i + 1);
        assert(pairs.deep_view().skip(i as int).skip(1) =~= pairs.deep_view().skip(i as int + 1));
        assert(pairs.deep_view().skip(i as int)[0] == pairs.deep_view()[i as int]);
        s.concat(rest.as_str())
    }
}

impl Response {
    /// The response as text, ready to be written back on the connection.
    pub fn to_text(&self) -> (t: String)
        ensures
            t@ == spec_response_text(*self),
    {
        let mut s = String::from_str("HTTP/1.1 ");
        let code = dec_string(self.status_code as u64);
        s.append(code.as_str());
        s.append(" ");
        s.append(reason_str(self.status_code));
        s.append("\r\n");
        let hs = headers_text_from(&self.headers, 0);
        assert(self.headers.deep_view().skip(0) =~= self.headers.deep_view());
        s.append(hs.as_str());
        s.append("\r\n");
        s.append(self.body.as_str());
        s
    }

    /// The serialized response bytes (UTF-8 of [`Response::to_text`]).
    pub fn to_bytes(&self) -> (b: Vec<u8>)
        ensures
            b@ == vstd::utf8::encode_utf8(spec_response_text(*self)),
    {
        let t = self.to_text();
        t.as_str().as_bytes_vec()
    }
}

} // verus!
