//! Name mangling for the middleware scaffolding tool: turns a
//! developer-supplied name into a snake-case module name. The file
//! writing itself happens outside the core.

use vstd::prelude::*;
use vstd::string::*;

verus! {

/// What `char::is_uppercase` returns: the Unicode uppercase property, a
/// function of the character alone.
pub uninterp spec fn uppercase_of(c: char) -> bool;

/// What `char::to_lowercase` yields: the Unicode lowercase mapping of one
/// character, a function of the character alone.
pub uninterp spec fn lowercase_chars_of(c: char) -> Seq<char>;

/// Relies on char::is_uppercase: the Unicode uppercase test.
#[verifier::external_body]
fn char_is_uppercase(c: char) -> (r: bool)
    ensures
        r == uppercase_of(c),
{
    c.is_uppercase()
}

/// Relies on char::to_lowercase: the Unicode lowercase mapping, collected
/// into a string.
#[verifier::external_body]
fn char_to_lowercase(c: char) -> (r: String)
    ensures
        r@ == lowercase_chars_of(c),
{
    c.to_lowercase().collect()
}

/// Relies on str::chars: the characters of the string, in order.
#[verifier::external_body]
fn chars_of(s: &str) -> (r: Vec<char>)
    ensures
        r@ == s@,
{
    s.chars().collect()
}

/// Relies on String's FromIterator over char: the string of exactly these
/// characters.
#[verifier::external_body]
fn string_from_chars(v: &Vec<char>) -> (r: String)
    ensures
        r@ == v@,
{
    v.iter().collect()
}

/// ASCII letters lowered, anything else unchanged.
pub open spec fn ascii_lower(c: char) -> char {
    let u = c as u32;
    if 0x41 <= u && u <= 0x5A {
        (((u + 32) as u8) as char)
    } else {
        c
    }
}

fn ascii_lower_char(c: char) -> (r: char)
    ensures
        r == ascii_lower(c),
{
    let u = c as u32;
    if 0x41 <= u && u <= 0x5A {
        ((u + 32) as u8) as char
    } else {
        c
    }
}

/// What position `i` of the input contributes: an uppercase character is
/// lowered (Unicode mapping) behind a separator unless it leads, `-` and
/// space become separators, anything else is ASCII-lowered.
pub open spec fn spec_snake_piece(s: Seq<char>, i: int) -> Seq<char> {
    let c = s[i];
    if uppercase_of(c) {
        (if i > 0 {
            seq!['_']
        } else {
            Seq::empty()
        }) + lowercase_chars_of(c)
    } else if c == '-' || c == ' ' {
        seq!['_']
    } else {
        seq![ascii_lower(c)]
    }
}

/// The snake-case rendering of the first `i` input characters.
pub open spec fn spec_snake_upto(s: Seq<char>, i: int) -> Seq<char>
    decreases i,
{
    if i <= 0 {
        Seq::empty()
    } else {
        spec_snake_upto(s, i - 1) + spec_snake_piece(s, i - 1)
    }
}

/// Turns a developer-supplied name into snake case.
pub fn to_snake_case(input: &str) -> (out: String)
    ensures
        out@ == spec_snake_upto(input@, input@.len() as int),
{
    let cs = chars_of(input);
    let mut out: Vec<char> = Vec::new();
    assert(out@ =~= spec_snake_upto(input@, 0));
    let mut i: usize = 0;
    while i < cs.len()
        invariant
            i <= cs.len(),
            cs@ == input@,
            out@ == spec_snake_upto(input@, i as int),
        decreases cs.len() - i,
    {
        let c = cs[i];
        if char_is_uppercase(c) {
            if i > 0 {
                out.push('_');
            }
            let low = char_to_lowercase(c);
            let mut lowv = chars_of(low.as_str());
            out.append(&mut lowv);
            assert(out@ =~= spec_snake_upto(input@, i as int) + spec_snake_piece(
                input@,
                i as int,
            ));
        } else if c == '-' || c == ' ' {
            out.push('_');
            assert(out@ =~= spec_snake_upto(input@, i as int) + spec_snake_piece(
                input@,
                i as int,
            ));
        } else {
            out.push(ascii_lower_char(c));
            assert(out@ =~= spec_snake_upto(input@, i as int) + spec_snake_piece(
                input@,
                i as int,
            ));
        }
        i = i + 1;
    }
    string_from_chars(&out)
}

} // verus!
