//! Endpoint composition.
//!
//! A request URL is derived from the client's base endpoint by replacing
//! the final path segment with the method name and appending the encoded
//! parameter set as a query string.  A base endpoint without any path
//! segment is left unmodified (a documented degenerate case).  Query
//! components are percent-encoded byte-wise over their UTF-8 form, with
//! unreserved characters kept as they are.

use vstd::prelude::*;
use vstd::string::*;
use crate::digits::push_char;
use crate::params::Params;

verus! {

/// Characters that a query component keeps unescaped.
pub open spec fn is_unreserved(c: char) -> bool {
    let u = c as u32;
    (('a' as u32) <= u && u <= ('z' as u32)) || (('A' as u32) <= u && u <= ('Z' as u32)) || ((
    '0' as u32) <= u && u <= ('9' as u32)) || c == '-' || c == '_' || c == '.' || c == '~'
}

/// The character for a hexadecimal digit below sixteen, upper case.
pub open spec fn hex_char(d: int) -> char {
    if d == 0 {
        '0'
    } else if d == 1 {
        '1'
    } else if d == 2 {
        '2'
    } else if d == 3 {
        '3'
    } else if d == 4 {
        '4'
    } else if d == 5 {
        '5'
    } else if d == 6 {
        '6'
    } else if d == 7 {
        '7'
    } else if d == 8 {
        '8'
    } else if d == 9 {
        '9'
    } else if d == 10 {
        'A'
    } else if d == 11 {
        'B'
    } else if d == 12 {
        'C'
    } else if d == 13 {
        'D'
    } else if d == 14 {
        'E'
    } else {
        'F'
    }
}

/// The escape of one byte: a percent sign and two hex digits.
pub open spec fn pct_byte(b: int) -> Seq<char> {
    seq!['%', hex_char(b / 16), hex_char(b % 16)]
}

/// The encoding of one character: itself when unreserved, otherwise the
/// escapes of its UTF-8 bytes.
pub open spec fn pct_char(c: char) -> Seq<char> {
    let u = c as u32 as int;
    if is_unreserved(c) {
        seq![c]
    } else if u < 0x80 {
        pct_byte(u)
    } else if u < 0x800 {
        pct_byte(0xC0 + u / 64) + pct_byte(0x80 + u % 64)
    } else if u < 0x10000 {
        pct_byte(0xE0 + u / 4096) + pct_byte(0x80 + (u / 64) % 64) + pct_byte(0x80 + u % 64)
    } else {
        pct_byte(0xF0 + u / 262144) + pct_byte(0x80 + (u / 4096) % 64) + pct_byte(
            0x80 + (u / 64) % 64,
        ) + pct_byte(0x80 + u % 64)
    }
}

/// The percent-encoding of a whole component.
pub open spec fn pct_encode(s: Seq<char>) -> Seq<char>
    decreases s.len(),
{
    if s.len() == 0 {
        Seq::empty()
    } else {
        pct_char(s[0]) + pct_encode(s.drop_first())
    }
}

/// The text of one encoded pair: `name=value`.
pub open spec fn pair_text(p: (Seq<char>, Seq<char>)) -> Seq<char> {
    pct_encode(p.0) + seq!['='] + pct_encode(p.1)
}

/// The text of a whole query: encoded pairs joined by `&`.
pub open spec fn query_text(ps: Seq<(Seq<char>, Seq<char>)>) -> Seq<char>
    decreases ps.len(),
{
    if ps.len() == 0 {
        Seq::empty()
    } else if ps.len() == 1 {
        pair_text(ps[0])
    } else {
        pair_text(ps[0]) + seq!['&'] + query_text(ps.drop_first())
    }
}

/// Index just past the first `://`, if any.
pub open spec fn first_scheme_end(s: Seq<char>, i: int) -> Option<int>
    decreases s.len() - i,
{
    if i + 3 > s.len() {
        None
    } else if s[i] == ':' && s[i + 1] == '/' && s[i + 2] == '/' {
        Some(i + 3)
    } else {
        first_scheme_end(s, i + 1)
    }
}

/// Index of the first `/` at or after `i`, if any.
pub open spec fn first_slash_from(s: Seq<char>, i: int) -> Option<int>
    decreases s.len() - i,
{
    if i >= s.len() {
        None
    } else if s[i] == '/' {
        Some(i)
    } else {
        first_slash_from(s, i + 1)
    }
}

/// Index of the first path slash: the first `/` after the scheme marker
/// (or anywhere, when no scheme marker is present).
pub open spec fn path_slash(s: Seq<char>) -> Option<int> {
    let h = match first_scheme_end(s, 0) {
        Some(k) => k,
        None => 0,
    };
    first_slash_from(s, h)
}

/// Index of the last `/` before `i`, if any.
pub open spec fn last_slash(s: Seq<char>, i: int) -> Option<int>
    decreases i,
{
    if i <= 0 {
        None
    } else if s[i - 1] == '/' {
        Some(i - 1)
    } else {
        last_slash(s, i - 1)
    }
}

/// The base endpoint with its final path segment replaced by the method
/// name; the base itself when it has no path segment.
pub open spec fn stem_text(base: Seq<char>, method: Seq<char>) -> Seq<char> {
    match path_slash(base) {
        None => base,
        Some(_) => match last_slash(base, base.len() as int) {
            Some(j) => base.take(j + 1) + method,
            None => base,
        },
    }
}

/// The full request URL: the stem, and the query when any pair is present.
pub open spec fn composed_url(
    base: Seq<char>,
    method: Seq<char>,
    ps: Seq<(Seq<char>, Seq<char>)>,
) -> Seq<char> {
    if ps.len() == 0 {
        stem_text(base, method)
    } else {
        stem_text(base, method) + seq!['?'] + query_text(ps)
    }
}

/// The character for a hexadecimal digit below sixteen.
fn hex_char_of(d: u32) -> (c: char)
    requires
        d < 16,
    ensures
        c == hex_char(d as int),
{
    if d == 0 {
        '0'
    } else if d == 1 {
        '1'
    } else if d == 2 {
        '2'
    } else if d == 3 {
        '3'
    } else if d == 4 {
        '4'
    } else if d == 5 {
        '5'
    } else if d == 6 {
        '6'
    } else if d == 7 {
        '7'
    } else if d == 8 {
        '8'
    } else if d == 9 {
        '9'
    } else if d == 10 {
        'A'
    } else if d == 11 {
        'B'
    } else if d == 12 {
        'C'
    } else if d == 13 {
        'D'
    } else if d == 14 {
        'E'
    } else {
        'F'
    }
}

/// Appends the escape of one byte.
fn push_pct_byte(s: &mut String, b: u32)
    requires
        b < 256,
    ensures
        final(s)@ == old(s)@ + pct_byte(b as int),
{
    push_char(s, '%');
    push_char(s, hex_char_of(b / 16));
    push_char(s, hex_char_of(b % 16));
    proof {
        assert(s@ =~= old(s)@ + pct_byte(b as int));
    }
}

/// Appends the encoding of one character.
fn push_pct_char(s: &mut String, c: char)
    ensures
        final(s)@ == old(s)@ + pct_char(c),
{
    let u = c as u32;
    if (97 <= u && u <= 122) || (65 <= u && u <= 90) || (48 <= u && u <= 57) || c == '-' || c == '_'
        || c == '.' || c == '~' {
        push_char(s, c);
        proof {
            assert(s@ =~= old(s)@ + pct_char(c));
        }
    } else if u < 0x80 {
        push_pct_byte(s, u);
    } else if u < 0x800 {
        push_pct_byte(s, 0xC0 + u / 64);
        push_pct_byte(s, 0x80 + u % 64);
        proof {
            assert(s@ =~= old(s)@ + pct_char(c));
        }
    } else if u < 0x10000 {
        push_pct_byte(s, 0xE0 + u / 4096);
        push_pct_byte(s, 0x80 + (u / 64) % 64);
        push_pct_byte(s, 0x80 + u % 64);
        proof {
            assert(s@ =~= old(s)@ + pct_char(c));
        }
    } else {
        push_pct_byte(s, 0xF0 + u / 262144);
        push_pct_byte(s, 0x80 + (u / 4096) % 64);
        push_pct_byte(s, 0x80 + (u / 64) % 64);
        push_pct_byte(s, 0x80 + u % 64);
        proof {
            assert(s@ =~= old(s)@ + pct_char(c));
        }
    }
}

/// One encoding step at the end of a component.
proof fn lemma_pct_encode_snoc(s: Seq<char>, i: int)
    requires
        0 <= i < s.len(),
    ensures
        pct_encode(s.take(i + 1)) == pct_encode(s.take(i)) + pct_char(s[i]),
    decreases i,
{
    if i == 0 {
        assert(s.take(1) =~= seq![s[0]]);
        assert(s.take(1).drop_first() =~= Seq::<char>::empty());
        assert(s.take(0) =~= Seq::<char>::empty());
        assert(pct_encode(s.take(1)) =~= pct_encode(s.take(0)) + pct_char(s[0]));
    } else {
        lemma_pct_encode_snoc(s.drop_first(), i - 1);
        assert(s.take(i + 1).drop_first() =~= s.drop_first().take(i));
        assert(s.take(i).drop_first() =~= s.drop_first().take(i - 1));
        assert(s.drop_first()[i - 1] == s[i]);
        assert(s.take(i + 1)[0] == s[0]);
        assert(s.take(i)[0] == s[0]);
        assert(pct_encode(s.take(i + 1)) =~= pct_encode(s.take(i)) + pct_char(s[i]));
    }
}

/// Percent-encodes one query component.
pub fn encode_component(input: &str) -> (r: String)
    ensures
        r@ == pct_encode(input@),
{
    let len = input.unicode_len();
    let mut r = String::new();
    let mut i: usize = 0;
    while i < len
        invariant
            i <= len,
            len == input@.len(),
            r@ == pct_encode(input@.take(i as int)),
        decreases len - i,
    {
        let c = input.get_char(i);
        push_pct_char(&mut r, c);
        proof {
            lemma_pct_encode_snoc(input@, i as int);
        }
        i = i + 1;
    }
    proof {
        assert(input@.take(len as int) =~= input@);
    }
    r
}

/// One pair appended at the end of a query.
proof fn lemma_query_text_snoc(ps: Seq<(Seq<char>, Seq<char>)>, p: (Seq<char>, Seq<char>))
    ensures
        query_text(ps.push(p)) == if ps.len() == 0 {
            pair_text(p)
        } else {
            query_text(ps) + seq!['&'] + pair_text(p)
        },
    decreases ps.len(),
{
    if ps.len() == 0 {
        assert(ps.push(p)[0] == p);
        assert(query_text(ps.push(p)) =~= pair_text(p));
    } else {
        lemma_query_text_snoc(ps.drop_first(), p);
        assert(ps.push(p).drop_first() =~= ps.drop_first().push(p));
        assert(ps.push(p)[0] == ps[0]);
        if ps.len() == 1 {
            assert(query_text(ps.push(p)) =~= query_text(ps) + seq!['&'] + pair_text(p));
        } else {
            assert(query_text(ps.push(p)) =~= query_text(ps) + seq!['&'] + pair_text(p));
        }
    }
}

/// Builds the query text of a parameter set.
pub fn build_query(params: &Params) -> (r: String)
    ensures
        r@ == query_text(params@),
{
    let pairs = params.get_params();
    let mut r = String::new();
    let mut i: usize = 0;
    while i < pairs.len()
        invariant
            i <= pairs.len(),
            pairs@.map_values(|p: (String, String)| (p.0@, p.1@)) == params@,
            r@ == query_text(params@.take(i as int)),
        decreases pairs@.len() - i,
    {
        proof {
            assert(params@[i as int] == (pairs@[i as int].0@, pairs@[i as int].1@));
        }
        if i > 0 {
            push_char(&mut r, '&');
        }
        let k = encode_component(pairs[i].0.as_str());
        r.append(k.as_str());
        push_char(&mut r, '=');
        let v = encode_component(pairs[i].1.as_str());
        r.append(v.as_str());
        proof {
            lemma_query_text_snoc(params@.take(i as int), params@[i as int]);
            assert(params@.take(i as int + 1) =~= params@.take(i as int).push(params@[i as int]));
            assert(r@ =~= query_text(params@.take(i as int + 1)));
        }
        i = i + 1;
    }
    proof {
        assert(params@.take(pairs@.len() as int) =~= params@);
    }
    r
}

/// Finds the end of the scheme marker `://`.
fn find_scheme_end(s: &str) -> (r: Option<usize>)
    ensures
        match r {
            Some(k) => first_scheme_end(s@, 0) == Some(k as int) && k <= s@.len(),
            None => first_scheme_end(s@, 0) is None,
        },
{
    let len = s.unicode_len();
    if len < 3 {
        return None;
    }
    let mut i: usize = 0;
    while i <= len - 3
        invariant
            len == s@.len(),
            3 <= len,
            i <= len - 2,
            first_scheme_end(s@, 0) == first_scheme_end(s@, i as int),
        decreases len - i,
    {
        if s.get_char(i) == ':' && s.get_char(i + 1) == '/' && s.get_char(i + 2) == '/' {
            return Some(i + 3);
        }
        i = i + 1;
    }
    None
}

/// Finds the first `/` at or after `from`.
fn find_slash_from(s: &str, from: usize) -> (r: Option<usize>)
    requires
        from <= s@.len(),
    ensures
        match r {
            Some(k) => first_slash_from(s@, from as int) == Some(k as int),
            None => first_slash_from(s@, from as int) is None,
        },
{
    let len = s.unicode_len();
    let mut i: usize = from;
    while i < len
        invariant
            len == s@.len(),
            i <= len,
            first_slash_from(s@, from as int) == first_slash_from(s@, i as int),
        decreases len - i,
    {
        if s.get_char(i) == '/' {
            return Some(i);
        }
        i = i + 1;
    }
    None
}

/// Finds the last `/` in the text.
fn rfind_slash(s: &str) -> (r: Option<usize>)
    ensures
        match r {
            Some(k) => last_slash(s@, s@.len() as int) == Some(k as int) && k < s@.len() && k + 1
                <= usize::MAX,
            None => last_slash(s@, s@.len() as int) is None,
        },
{
    let len = s.unicode_len();
    let mut i: usize = len;
    while i > 0
        invariant
            len == s@.len(),
            i <= len,
            last_slash(s@, len as int) == last_slash(s@, i as int),
        decreases i,
    {
        if s.get_char(i - 1) == '/' {
            return Some(i - 1);
        }
        i = i - 1;
    }
    None
}

/// Composes the request URL for one method call.
pub fn compose_url(base: &str, method: &str, params: &Params) -> (r: String)
    ensures
        r@ == composed_url(base@, method@, params@),
{
    let scheme = find_scheme_end(base);
    let h: usize = match scheme {
        Some(k) => k,
        None => 0,
    };
    let first = find_slash_from(base, h);
    let mut r: String;
    match first {
        None => {
            r = base.to_owned();
        },
        Some(_) => {
            match rfind_slash(base) {
                Some(j) => {
                    let stem = base.substring_char(0, j + 1);
                    r = stem.to_owned();
                    r.append(method);
                },
                None => {
                    r = base.to_owned();
                },
            }
        },
    }
    if params.len() > 0 {
        push_char(&mut r, '?');
        let q = build_query(params);
        r.append(q.as_str());
        proof {
            assert(r@ =~= composed_url(base@, method@, params@));
        }
    } else {
        proof {
            assert(r@ =~= composed_url(base@, method@, params@));
        }
    }
    r
}

} // verus!
