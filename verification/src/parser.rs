//! Lenient HTTP/1.1 request-text parsing.
//!
//! Everything here works on plain text already pulled off the socket:
//! malformed input degrades to empty or default values, it never fails.
//! The spec functions scan a `Seq<char>` by index; each executable
//! function mirrors one of them.

use vstd::prelude::*;
use vstd::string::*;

use crate::http::Request;

verus! {

/// The first index at or after `i` holding `c`, or `s.len()` when absent.
pub open spec fn find_at(s: Seq<char>, i: int, c: char) -> int
    decreases s.len() - i
        when 0 <= i <= s.len()
{
    if i >= s.len() {
        s.len() as int
    } else if s[i] == c {
        i
    } else {
        find_at(s, i + 1, c)
    }
}

pub proof fn lemma_find_at_bounds(s: Seq<char>, i: int, c: char)
    requires
        0 <= i <= s.len(),
    ensures
        i <= find_at(s, i, c) <= s.len(),
        forall|j: int| i <= j < find_at(s, i, c) ==> s[j] != c,
        find_at(s, i, c) < s.len() ==> s[find_at(s, i, c)] == c,
    decreases s.len() - i,
{
    if i < s.len() && s[i] != c {
        lemma_find_at_bounds(s, i + 1, c);
    }
}

/// Finds the first occurrence of `c` at or after index `i`.
pub fn find_char(s: &str, i: usize, c: char) -> (j: usize)
    requires
        i <= s@.len(),
    ensures
        j == find_at(s@, i as int, c),
        i <= j <= s@.len(),
    decreases s@.len() - i,
{
    proof {
        lemma_find_at_bounds(s@, i as int, c);
    }
    if i == s.unicode_len() {
        i
    } else if s.get_char(i) == c {
        i
    } else {
        find_char(s, i + 1, c)
    }
}

/// The non-empty `/`-separated path segments of `s`, scanning from `i`.
pub open spec fn spec_segments_at(s: Seq<char>, i: int) -> Seq<Seq<char>>
    decreases s.len() - i
        when 0 <= i <= s.len()
        via spec_segments_at_dec
{
    let e = find_at(s, i, '/');
    let piece = s.subrange(i, e);
    let rest = if e >= s.len() {
        Seq::empty()
    } else {
        spec_segments_at(s, e + 1)
    };
    if piece.len() == 0 {
        rest
    } else {
        seq![piece] + rest
    }
}

#[via_fn]
proof fn spec_segments_at_dec(s: Seq<char>, i: int) {
    lemma_find_at_bounds(s, i, '/');
}

/// The path segments of a raw url: everything before the first `?`,
/// split on `/`, empty pieces dropped.
pub open spec fn spec_segments(url: Seq<char>) -> Seq<Seq<char>> {
    spec_segments_at(url.subrange(0, find_at(url, 0, '?')), 0)
}

fn segments_from(s: &str, i: usize) -> (r: Vec<String>)
    requires
        i <= s@.len(),
    ensures
        r.deep_view() == spec_segments_at(s@, i as int),
    decreases s@.len() - i,
{
    proof {
        lemma_find_at_bounds(s@, i as int, '/');
    }
    let e = find_char(s, i, '/');
    let piece = s.substring_char(i, e);
    let rest: Vec<String> = if e == s.unicode_len() {
        Vec::new()
    } else {
        segments_from(s, e + 1)
    };
    if piece.unicode_len() == 0 {
        proof {
            if e as int >= s@.len() {
                assert(rest.deep_view() =~= Seq::<Seq<char>>::empty());
            }
        }
        rest
    } else {
        let mut v: Vec<String> = Vec::new();
        v.push(String::from_str(piece));
        let mut tail = rest;
        let ghost tail_dv = tail.deep_view();
        v.append(&mut tail);
        proof {
            assert forall|k: int| 0 <= k < v@.len() implies v.deep_view()[k] == (seq![piece@]
                + tail_dv)[k] by {}
            assert(v.deep_view() =~= seq![piece@] + tail_dv);
        }
        v
    }
}

/// Splits a raw url (query included) into its non-empty path segments.
pub fn split_path_segments(url: &str) -> (segs: Vec<String>)
    ensures
        segs.deep_view() == spec_segments(url@),
{
    proof {
        lemma_find_at_bounds(url@, 0, '?');
    }
    let q = find_char(url, 0, '?');
    let path = url.substring_char(0, q);
    segments_from(path, 0)
}

/// A Unicode white-space character, the set the start line is split on.
pub open spec fn is_ws(c: char) -> bool {
    let u = c as u32;
    ||| u == 0x20
    ||| (0x09 <= u && u <= 0x0D)
    ||| u == 0x85
    ||| u == 0xA0
    ||| u == 0x1680
    ||| (0x2000 <= u && u <= 0x200A)
    ||| u == 0x2028
    ||| u == 0x2029
    ||| u == 0x202F
    ||| u == 0x205F
    ||| u == 0x3000
}

fn is_ws_char(c: char) -> (r: bool)
    ensures
        r == is_ws(c),
{
    let u = c as u32;
    u == 0x20 || (0x09 <= u && u <= 0x0D) || u == 0x85 || u == 0xA0 || u == 0x1680 || (0x2000 <= u
        && u <= 0x200A) || u == 0x2028 || u == 0x2029 || u == 0x202F || u == 0x205F || u == 0x3000
}

/// The first non-white-space index at or after `i`, or `s.len()`.
pub open spec fn skip_ws_at(s: Seq<char>, i: int) -> int
    decreases s.len() - i
        when 0 <= i <= s.len()
{
    if i >= s.len() {
        s.len() as int
    } else if is_ws(s[i]) {
        skip_ws_at(s, i + 1)
    } else {
        i
    }
}

proof fn lemma_skip_ws_bounds(s: Seq<char>, i: int)
    requires
        0 <= i <= s.len(),
    ensures
        i <= skip_ws_at(s, i) <= s.len(),
        skip_ws_at(s, i) < s.len() ==> !is_ws(s[skip_ws_at(s, i)]),
    decreases s.len() - i,
{
    if i < s.len() && is_ws(s[i]) {
        lemma_skip_ws_bounds(s, i + 1);
    }
}

/// The end of the white-space-free run starting at `i`.
pub open spec fn token_end_at(s: Seq<char>, i: int) -> int
    decreases s.len() - i
        when 0 <= i <= s.len()
{
    if i >= s.len() {
        s.len() as int
    } else if is_ws(s[i]) {
        i
    } else {
        token_end_at(s, i + 1)
    }
}

proof fn lemma_token_end_bounds(s: Seq<char>, i: int)
    requires
        0 <= i <= s.len(),
    ensures
        i <= token_end_at(s, i) <= s.len(),
        i < s.len() && !is_ws(s[i]) ==> token_end_at(s, i) > i,
    decreases s.len() - i,
{
    if i < s.len() && !is_ws(s[i]) {
        lemma_token_end_bounds(s, i + 1);
    }
}

/// The white-space-separated tokens of `s`, scanning from `i`.
pub open spec fn tokens_at(s: Seq<char>, i: int) -> Seq<Seq<char>>
    decreases s.len() - i
        when 0 <= i <= s.len()
        via tokens_at_dec
{
    if i >= s.len() {
        Seq::empty()
    } else if is_ws(s[i]) {
        tokens_at(s, i + 1)
    } else {
        seq![s.subrange(i, token_end_at(s, i))] + tokens_at(s, token_end_at(s, i))
    }
}

#[via_fn]
proof fn tokens_at_dec(s: Seq<char>, i: int) {
    if 0 <= i <= s.len() {
        lemma_token_end_bounds(s, i);
    }
}

proof fn lemma_tokens_skip_ws(s: Seq<char>, i: int)
    requires
        0 <= i <= s.len(),
    ensures
        tokens_at(s, i) == tokens_at(s, skip_ws_at(s, i)),
    decreases s.len() - i,
{
    if i < s.len() && is_ws(s[i]) {
        lemma_tokens_skip_ws(s, i + 1);
    }
}

/// The `k`-th white-space-separated token of `s`, or empty text: the
/// lenient reading the start line gets.
pub open spec fn token_or_empty(s: Seq<char>, k: int) -> Seq<char> {
    let t = tokens_at(s, 0);
    if 0 <= k < t.len() {
        t[k]
    } else {
        Seq::empty()
    }
}

fn skip_ws(s: &str, i: usize) -> (j: usize)
    requires
        i <= s@.len(),
    ensures
        j == skip_ws_at(s@, i as int),
        i <= j <= s@.len(),
    decreases s@.len() - i,
{
    proof {
        lemma_skip_ws_bounds(s@, i as int);
    }
    if i == s.unicode_len() {
        i
    } else if is_ws_char(s.get_char(i)) {
        skip_ws(s, i + 1)
    } else {
        i
    }
}

fn token_end(s: &str, i: usize) -> (j: usize)
    requires
        i <= s@.len(),
    ensures
        j == token_end_at(s@, i as int),
        i <= j <= s@.len(),
    decreases s@.len() - i,
{
    proof {
        lemma_token_end_bounds(s@, i as int);
    }
    if i == s.unicode_len() {
        i
    } else if is_ws_char(s.get_char(i)) {
        i
    } else {
        token_end(s, i + 1)
    }
}

fn next_token(s: &str, i: usize) -> (r: (usize, usize))
    requires
        i <= s@.len(),
    ensures
        r.0 == skip_ws_at(s@, i as int),
        r.1 == token_end_at(s@, r.0 as int),
        i <= r.0 <= r.1 <= s@.len(),
{
    let st = skip_ws(s, i);
    let en = token_end(s, st);
    (st, en)
}

/// Splits a start line on white space into method, target and version;
/// missing parts degrade to empty strings, anything after the third token
/// is ignored.
pub fn parse_start_line(line: &str) -> (r: (String, String, String))
    ensures
        r.0@ == token_or_empty(line@, 0),
        r.1@ == token_or_empty(line@, 1),
        r.2@ == token_or_empty(line@, 2),
{
    let (s0, e0) = next_token(line, 0);
    let method = line.substring_char(s0, e0);
    let (s1, e1) = next_token(line, e0);
    let target = line.substring_char(s1, e1);
    let (s2, e2) = next_token(line, e1);
    let version = line.substring_char(s2, e2);
    proof {
        let s = line@;
        lemma_tokens_skip_ws(s, 0);
        if s0 < s.len() {
            lemma_skip_ws_bounds(s, 0);
            lemma_tokens_skip_ws(s, e0 as int);
            if s1 < s.len() {
                lemma_skip_ws_bounds(s, e0 as int);
                lemma_tokens_skip_ws(s, e1 as int);
                if s2 < s.len() {
                    lemma_skip_ws_bounds(s, e1 as int);
                } else {
                    assert(version@ =~= Seq::<char>::empty());
                }
            } else {
                assert(target@ =~= Seq::<char>::empty());
                assert(version@ =~= Seq::<char>::empty());
            }
        } else {
            assert(method@ =~= Seq::<char>::empty());
            assert(target@ =~= Seq::<char>::empty());
            assert(version@ =~= Seq::<char>::empty());
        }
    }
    (String::from_str(method), String::from_str(target), String::from_str(version))
}

/// The first index where a `": "` header separator starts, or `s.len()`.
pub open spec fn find_sep_at(s: Seq<char>, i: int) -> int
    decreases s.len() - i
        when 0 <= i <= s.len()
{
    if i + 1 >= s.len() {
        s.len() as int
    } else if s[i] == ':' && s[i + 1] == ' ' {
        i
    } else {
        find_sep_at(s, i + 1)
    }
}

proof fn lemma_find_sep_bounds(s: Seq<char>, i: int)
    requires
        0 <= i <= s.len(),
    ensures
        i <= find_sep_at(s, i) <= s.len(),
        find_sep_at(s, i) < s.len() ==> find_sep_at(s, i) + 1 < s.len(),
    decreases s.len() - i,
{
    if i + 1 < s.len() && !(s[i] == ':' && s[i + 1] == ' ') {
        lemma_find_sep_bounds(s, i + 1);
    }
}

/// A header line split once on `": "`: the name before the first
/// separator, the value after it; a line without one is dropped.
pub open spec fn spec_header_pair(s: Seq<char>) -> Option<(Seq<char>, Seq<char>)> {
    let j = find_sep_at(s, 0);
    if j < s.len() {
        Some((s.subrange(0, j), s.subrange(j + 2, s.len() as int)))
    } else {
        None
    }
}

fn find_sep(s: &str, i: usize) -> (j: usize)
    requires
        i <= s@.len(),
    ensures
        j == find_sep_at(s@, i as int),
        i <= j <= s@.len(),
    decreases s@.len() - i,
{
    proof {
        lemma_find_sep_bounds(s@, i as int);
    }
    let l = s.unicode_len();
    if i >= l {
        l
    } else if i + 1 >= l {
        l
    } else if s.get_char(i) == ':' && s.get_char(i + 1) == ' ' {
        i
    } else {
        find_sep(s, i + 1)
    }
}

/// Splits one header line on its first `": "`.
pub fn parse_header_line(line: &str) -> (r: Option<(String, String)>)
    ensures
        match r {
            Some(p) => spec_header_pair(line@) == Some((p.0@, p.1@)),
            None => spec_header_pair(line@) is None,
        },
{
    proof {
        lemma_find_sep_bounds(line@, 0);
    }
    let j = find_sep(line, 0);
    if j < line.unicode_len() {
        let name = line.substring_char(0, j);
        let value = line.substring_char(j + 2, line.unicode_len());
        Some((String::from_str(name), String::from_str(value)))
    } else {
        None
    }
}

/// The header mapping after the first `i` head lines (line 0 is the start
/// line): parsed lines are bound in order, last write wins, malformed
/// lines are dropped silently.
pub open spec fn spec_headers_upto(lines: Seq<Seq<char>>, i: int) -> Seq<(Seq<char>, Seq<char>)>
    decreases i,
{
    if i <= 1 {
        Seq::empty()
    } else {
        let prev = spec_headers_upto(lines, i - 1);
        match spec_header_pair(lines[i - 1]) {
            Some(p) => crate::http::spec_map_set(prev, p.0, p.1),
            None => prev,
        }
    }
}

pub open spec fn spec_headers_of(lines: Seq<Seq<char>>) -> Seq<(Seq<char>, Seq<char>)> {
    spec_headers_upto(lines, lines.len() as int)
}

/// Builds the header mapping from the head lines.
pub fn headers_of_lines(lines: &Vec<String>) -> (hs: Vec<(String, String)>)
    ensures
        hs.deep_view() == spec_headers_of(lines.deep_view()),
{
    let mut hs: Vec<(String, String)> = Vec::new();
    assert(hs.deep_view() =~= spec_headers_upto(lines.deep_view(), 1));
    let mut i: usize = 1;
    while i < lines.len()
        invariant
            1 <= i,
            i <= lines.len() || i == 1,
            hs.deep_view() == spec_headers_upto(lines.deep_view(), i as int),
        decreases lines.len() - i,
    {
        match parse_header_line(lines[i].as_str()) {
            Some(p) => {
                crate::http::map_set(&mut hs, p.0, p.1);
            },
            None => {},
        }
        i = i + 1;
    }
    proof {
        if lines.deep_view().len() <= 1 {
            assert(spec_headers_of(lines.deep_view()) =~= spec_headers_upto(lines.deep_view(), 1));
        }
    }
    hs
}

/// The decimal digits.
pub open spec fn is_digit(c: char) -> bool {
    0x30 <= (c as u32) && (c as u32) <= 0x39
}

/// Where the digits of an unsigned decimal start: one leading `+` is
/// accepted.
pub open spec fn digits_start(s: Seq<char>) -> int {
    if s.len() > 0 && s[0] == '+' {
        1
    } else {
        0
    }
}

pub open spec fn all_digits_from(s: Seq<char>, i: int) -> bool {
    forall|j: int| i <= j < s.len() ==> is_digit(#[trigger] s[j])
}

/// The value of the digit run `s[i..e]` read in decimal.
pub open spec fn dec_value(s: Seq<char>, i: int, e: int) -> int
    decreases e - i,
{
    if e <= i {
        0
    } else {
        dec_value(s, i, e - 1) * 10 + ((s[e - 1] as u32) - 0x30)
    }
}

/// What `usize` decimal parsing accepts: an optional `+`, one or more
/// digits, and a value in range; anything else is rejected.
pub open spec fn spec_parse_usize(s: Seq<char>) -> Option<int> {
    let st = digits_start(s);
    if s.len() > st && all_digits_from(s, st) && dec_value(s, st, s.len() as int) <= usize::MAX {
        Some(dec_value(s, st, s.len() as int))
    } else {
        None
    }
}

proof fn lemma_dec_value_grows(s: Seq<char>, i: int, e: int, e2: int)
    requires
        0 <= i <= e <= e2 <= s.len(),
        dec_value(s, i, e) > usize::MAX,
    ensures
        dec_value(s, i, e2) > usize::MAX,
    decreases e2 - e,
{
    if e < e2 {
        assert(dec_value(s, i, e + 1) == dec_value(s, i, e) * 10 + ((s[e] as u32) - 0x30));
        assert((s[e] as u32) >= 0);
        lemma_dec_value_grows(s, i, e + 1, e2);
    }
}

/// Parses an unsigned decimal as `str::parse::<usize>` accepts it.
pub fn parse_usize(s: &str) -> (r: Option<usize>)
    ensures
        match r {
            Some(v) => spec_parse_usize(s@) == Some(v as int),
            None => spec_parse_usize(s@) is None,
        },
{
    let len = s.unicode_len();
    let start: usize = if len > 0 && s.get_char(0) == '+' {
        1
    } else {
        0
    };
    if len == start {
        return None;
    }
    let mut acc: usize = 0;
    let mut i: usize = start;
    while i < len
        invariant
            start <= i <= len,
            len == s@.len(),
            start == digits_start(s@),
            start < len,
            forall|j: int| start <= j < i ==> is_digit(#[trigger] s@[j]),
            acc == dec_value(s@, start as int, i as int),
        decreases len - i,
    {
        let c = s.get_char(i);
        let u = c as u32;
        if u < 0x30 || u > 0x39 {
            assert(!is_digit(s@[i as int]));
            return None;
        }
        let d = (u - 0x30) as usize;
        if acc > (usize::MAX - d) / 10 {
            proof {
                let m = (usize::MAX - d) as int;
                vstd::arithmetic::div_mod::lemma_fundamental_div_mod(m, 10);
                assert(acc * 10 >= (m / 10 + 1) * 10) by (nonlinear_arith)
                    requires
                        acc >= m / 10 + 1,
                {}
                assert(dec_value(s@, start as int, i as int + 1) > usize::MAX);
                lemma_dec_value_grows(s@, start as int, i as int + 1, len as int);
            }
            return None;
        }
        acc = acc * 10 + d;
        i = i + 1;
    }
    Some(acc)
}

/// The value of the `Content-Length` header read as `usize`; a missing
/// header or an unparsable value means no body is read.
pub open spec fn spec_content_length(pairs: Seq<(Seq<char>, Seq<char>)>) -> Option<int> {
    match crate::http::spec_map_get(pairs, "Content-Length"@) {
        Some(v) => spec_parse_usize(v),
        None => None,
    }
}

/// Reads the body length out of a header mapping.
pub fn content_length(headers: &Vec<(String, String)>) -> (r: Option<usize>)
    ensures
        match r {
            Some(v) => spec_content_length(headers.deep_view()) == Some(v as int),
            None => spec_content_length(headers.deep_view()) is None,
        },
{
    match crate::http::map_get(headers, "Content-Length") {
        Some(v) => parse_usize(v.as_str()),
        None => None,
    }
}

/// One `key=value` query pair, split once on the first `=`; a piece
/// without `=` binds nothing.
pub open spec fn spec_qpiece_pair(piece: Seq<char>) -> Option<(Seq<char>, Seq<char>)> {
    let j = find_at(piece, 0, '=');
    if j < piece.len() {
        Some((piece.subrange(0, j), piece.subrange(j + 1, piece.len() as int)))
    } else {
        None
    }
}

/// The query mapping accumulated over the `&`-separated pieces of
/// `u[i..]`, starting from `acc`.
pub open spec fn spec_qparams_at(
    u: Seq<char>,
    i: int,
    acc: Seq<(Seq<char>, Seq<char>)>,
) -> Seq<(Seq<char>, Seq<char>)>
    decreases u.len() - i
        when 0 <= i <= u.len()
        via spec_qparams_at_dec
{
    let e = find_at(u, i, '&');
    let acc2 = match spec_qpiece_pair(u.subrange(i, e)) {
        Some(p) => crate::http::spec_map_set(acc, p.0, p.1),
        None => acc,
    };
    if e >= u.len() {
        acc2
    } else {
        spec_qparams_at(u, e + 1, acc2)
    }
}

#[via_fn]
proof fn spec_qparams_at_dec(u: Seq<char>, i: int, acc: Seq<(Seq<char>, Seq<char>)>) {
    lemma_find_at_bounds(u, i, '&');
}

/// The query-parameter mapping of a raw url: the text after the first
/// `?`, split on `&`, each piece split once on `=`, later keys
/// overwriting earlier ones; pieces without `=` are skipped.
pub open spec fn spec_query_params(url: Seq<char>) -> Seq<(Seq<char>, Seq<char>)> {
    let q = find_at(url, 0, '?');
    if q < url.len() {
        spec_qparams_at(url, q + 1, Seq::empty())
    } else {
        Seq::empty()
    }
}

fn qpiece_apply(acc: &mut Vec<(String, String)>, piece: &str)
    ensures
        final(acc).deep_view() == (match spec_qpiece_pair(piece@) {
            Some(p) => crate::http::spec_map_set(old(acc).deep_view(), p.0, p.1),
            None => old(acc).deep_view(),
        }),
{
    proof {
        lemma_find_at_bounds(piece@, 0, '=');
    }
    let j = find_char(piece, 0, '=');
    if j < piece.unicode_len() {
        let k = piece.substring_char(0, j);
        let v = piece.substring_char(j + 1, piece.unicode_len());
        crate::http::map_set(acc, String::from_str(k), String::from_str(v));
    }
}

/// Builds the query-parameter mapping of a raw url.
pub fn parse_query_params(url: &str) -> (r: Vec<(String, String)>)
    ensures
        r.deep_view() == spec_query_params(url@),
{
    proof {
        lemma_find_at_bounds(url@, 0, '?');
    }
    let q = find_char(url, 0, '?');
    let mut acc: Vec<(String, String)> = Vec::new();
    assert(acc.deep_view() =~= Seq::<(Seq<char>, Seq<char>)>::empty());
    if q == url.unicode_len() {
        return acc;
    }
    let mut i: usize = q + 1;
    let ghost target = spec_qparams_at(url@, q as int + 1, Seq::empty());
    loop
        invariant
            q as int + 1 <= i <= url@.len(),
            q as int == find_at(url@, 0, '?'),
            q < url@.len(),
            target == spec_qparams_at(url@, q as int + 1, Seq::empty()),
            target == spec_qparams_at(url@, i as int, acc.deep_view()),
        decreases url@.len() - i,
    {
        proof {
            lemma_find_at_bounds(url@, i as int, '&');
        }
        let e = find_char(url, i, '&');
        let piece = url.substring_char(i, e);
        qpiece_apply(&mut acc, piece);
        if e == url.unicode_len() {
            proof {
                assert(target == acc.deep_view());
            }
            return acc;
        }
        i = e + 1;
    }
}

/// The trimmed length of `s[..t]`: trailing white space dropped.
pub open spec fn trimmed_len_at(s: Seq<char>, t: int) -> int
    decreases t,
{
    if t <= 0 {
        0
    } else if is_ws(s[t - 1]) {
        trimmed_len_at(s, t - 1)
    } else {
        t
    }
}

proof fn lemma_trimmed_bounds(s: Seq<char>, t: int)
    requires
        0 <= t <= s.len(),
    ensures
        0 <= trimmed_len_at(s, t) <= t,
    decreases t,
{
    if t > 0 && is_ws(s[t - 1]) {
        lemma_trimmed_bounds(s, t - 1);
    }
}

/// `s` with its trailing white space dropped, as the line reader trims
/// each head line.
pub open spec fn trim_end_ws(s: Seq<char>) -> Seq<char> {
    s.subrange(0, trimmed_len_at(s, s.len() as int))
}

fn trimmed_len(s: &str, t: usize) -> (r: usize)
    requires
        t <= s@.len(),
    ensures
        r == trimmed_len_at(s@, t as int),
        r <= t,
    decreases t,
{
    proof {
        lemma_trimmed_bounds(s@, t as int);
    }
    if t == 0 {
        0
    } else if is_ws_char(s.get_char(t - 1)) {
        trimmed_len(s, t - 1)
    } else {
        t
    }
}

/// The trimmed head lines of raw request text, up to (and not including)
/// the first blank line; reading also stops at the end of the text.
pub open spec fn spec_head_lines(s: Seq<char>, i: int) -> Seq<Seq<char>>
    decreases s.len() - i
        when 0 <= i <= s.len()
        via spec_head_lines_dec
{
    if i >= s.len() {
        Seq::empty()
    } else {
        let e = find_at(s, i, '\n');
        let t = trim_end_ws(s.subrange(i, e));
        if t.len() == 0 {
            Seq::empty()
        } else if e >= s.len() {
            seq![t]
        } else {
            seq![t] + spec_head_lines(s, e + 1)
        }
    }
}

#[via_fn]
proof fn spec_head_lines_dec(s: Seq<char>, i: int) {
    lemma_find_at_bounds(s, i, '\n');
}

/// Where the body text starts: right after the first blank line, or at
/// the end of the text when no blank line ends the head.
pub open spec fn spec_body_start(s: Seq<char>, i: int) -> int
    decreases s.len() - i
        when 0 <= i <= s.len()
        via spec_body_start_dec
{
    if i >= s.len() {
        s.len() as int
    } else {
        let e = find_at(s, i, '\n');
        let t = trim_end_ws(s.subrange(i, e));
        if t.len() == 0 {
            if e < s.len() {
                e + 1
            } else {
                s.len() as int
            }
        } else if e >= s.len() {
            s.len() as int
        } else {
            spec_body_start(s, e + 1)
        }
    }
}

#[via_fn]
proof fn spec_body_start_dec(s: Seq<char>, i: int) {
    lemma_find_at_bounds(s, i, '\n');
}

proof fn lemma_body_start_bounds(s: Seq<char>, i: int)
    requires
        0 <= i <= s.len(),
    ensures
        i <= spec_body_start(s, i) <= s.len(),
    decreases s.len() - i,
{
    if i < s.len() {
        lemma_find_at_bounds(s, i, '\n');
        let e = find_at(s, i, '\n');
        let t = trim_end_ws(s.subrange(i, e));
        if t.len() != 0 && e < s.len() {
            lemma_body_start_bounds(s, e + 1);
        }
    }
}

fn head_lines_from(s: &str, i: usize) -> (r: (Vec<String>, usize))
    requires
        i <= s@.len(),
    ensures
        r.0.deep_view() == spec_head_lines(s@, i as int),
        r.1 == spec_body_start(s@, i as int),
    decreases s@.len() - i,
{
    proof {
        lemma_find_at_bounds(s@, i as int, '\n');
    }
    if i == s.unicode_len() {
        let r: Vec<String> = Vec::new();
        assert(r.deep_view() =~= Seq::<Seq<char>>::empty());
        (r, i)
    } else {
        let e = find_char(s, i, '\n');
        let line = s.substring_char(i, e);
        let tl = trimmed_len(line, line.unicode_len());
        let t = line.substring_char(0, tl);
        if tl == 0 {
            let r: Vec<String> = Vec::new();
            assert(r.deep_view() =~= Seq::<Seq<char>>::empty());
            if e < s.unicode_len() {
                (r, e + 1)
            } else {
                (r, e)
            }
        } else if e == s.unicode_len() {
            let mut r: Vec<String> = Vec::new();
            r.push(String::from_str(t));
            proof {
                assert(r.deep_view() =~= seq![t@]);
            }
            (r, e)
        } else {
            let (mut rest, bs) = head_lines_from(s, e + 1);
            let mut r: Vec<String> = Vec::new();
            r.push(String::from_str(t));
            let ghost rest_dv = rest.deep_view();
            r.append(&mut rest);
            proof {
                assert forall|k: int| 0 <= k < r@.len() implies r.deep_view()[k] == (seq![t@]
                    + rest_dv)[k] by {}
                assert(r.deep_view() =~= seq![t@] + rest_dv);
            }
            (r, bs)
        }
    }
}

/// The first head line: the request's start line, or empty text when the
/// head is empty.
pub open spec fn first_line(lines: Seq<Seq<char>>) -> Seq<char> {
    if lines.len() > 0 {
        lines[0]
    } else {
        Seq::empty()
    }
}

/// Assembles a request from its trimmed head lines and its body, carrying
/// the caller's remote address and capture time through unchanged.
pub fn build_request(
    lines: &Vec<String>,
    body: String,
    remote_addr: Option<String>,
    timestamp: i64,
) -> (r: Request)
    ensures
        r.method@ == token_or_empty(first_line(lines.deep_view()), 0),
        r.url@ == token_or_empty(first_line(lines.deep_view()), 1),
        r.headers.deep_view() == spec_headers_of(lines.deep_view()),
        r.query_params.deep_view() == spec_query_params(r.url@),
        r.body == body,
        r.remote_addr == remote_addr,
        r.timestamp == timestamp,
{
    let empty_line = String::new();
    let line0 = if lines.len() > 0 {
        lines[0].as_str()
    } else {
        empty_line.as_str()
    };
    assert(line0@ == first_line(lines.deep_view()));
    let (method, url, _version) = parse_start_line(line0);
    let headers = headers_of_lines(lines);
    let query_params = parse_query_params(url.as_str());
    Request { method, url, headers, body, remote_addr, timestamp, query_params }
}

/// The body text of raw request text: what follows the first blank line,
/// truncated to the parsed `Content-Length`; without one, empty.
pub open spec fn spec_body_text(s: Seq<char>) -> Seq<char> {
    let bs = spec_body_start(s, 0);
    match spec_content_length(spec_headers_of(spec_head_lines(s, 0))) {
        Some(n) => {
            if bs + n <= s.len() {
                s.subrange(bs, bs + n)
            } else {
                s.subrange(bs, s.len() as int)
            }
        },
        None => Seq::empty(),
    }
}

/// Parses whole raw request text into a request, the offline counterpart
/// of the per-connection read loop: head lines up to the first blank
/// line, then the body by `Content-Length`.
pub fn parse_request(raw: &str, remote_addr: Option<String>, timestamp: i64) -> (r: Request)
    ensures
        r.method@ == token_or_empty(first_line(spec_head_lines(raw@, 0)), 0),
        r.url@ == token_or_empty(first_line(spec_head_lines(raw@, 0)), 1),
        r.headers.deep_view() == spec_headers_of(spec_head_lines(raw@, 0)),
        r.query_params.deep_view() == spec_query_params(r.url@),
        r.body@ == spec_body_text(raw@),
        r.remote_addr == remote_addr,
        r.timestamp == timestamp,
{
    let (lines, bstart) = head_lines_from(raw, 0);
    proof {
        lemma_body_start_bounds(raw@, 0);
    }
    let len = raw.unicode_len();
    let mut r = build_request(&lines, String::new(), remote_addr, timestamp);
    let body = match content_length(&r.headers) {
        Some(n) => {
            if n <= len - bstart {
                String::from_str(raw.substring_char(bstart, bstart + n))
            } else {
                String::from_str(raw.substring_char(bstart, len))
            }
        },
        None => String::new(),
    };
    assert(body@ == spec_body_text(raw@));
    r.body = body;
    r
}

} // verus!

