use vstd::prelude::*;

use crate::outside::push_char;
use vstd::string::StrSliceExecFns;

verus! {

/// Character-for-character equality of two string slices.
pub fn str_eq(a: &str, b: &str) -> (r: bool)
    ensures
        r == (a@ == b@),
{
    let na = a.unicode_len();
    let nb = b.unicode_len();
    if na != nb {
        return false;
    }
    let mut i: usize = 0;
    while i < na
        invariant
            na == a@.len(),
            nb == b@.len(),
            na == nb,
            0 <= i <= na,
            forall|k: int| 0 <= k < i ==> a@[k] == b@[k],
        decreases na - i,
    {
        if a.get_char(i) != b.get_char(i) {
            return false;
        }
        i = i + 1;
    }
    proof {
        assert(a@ =~= b@);
    }
    true
}

/// Whether `s` begins with `prefix`, character for character.
pub open spec fn spec_starts_with(s: Seq<char>, prefix: Seq<char>) -> bool {
    s.len() >= prefix.len() && s.subrange(0, prefix.len() as int) == prefix
}

pub fn str_starts_with(s: &str, prefix: &str) -> (r: bool)
    ensures
        r == spec_starts_with(s@, prefix@),
{
    let n = s.unicode_len();
    let np = prefix.unicode_len();
    if n < np {
        return false;
    }
    let mut i: usize = 0;
    while i < np
        invariant
            n == s@.len(),
            np == prefix@.len(),
            np <= n,
            0 <= i <= np,
            forall|k: int| 0 <= k < i ==> s@[k] == prefix@[k],
        decreases np - i,
    {
        if s.get_char(i) != prefix.get_char(i) {
            proof {
                assert(s@.subrange(0, np as int)[i as int] == s@[i as int]);
            }
            return false;
        }
        i = i + 1;
    }
    proof {
        assert(s@.subrange(0, np as int) =~= prefix@);
    }
    true
}

/// The position of the first `/` at or after `i`, or the length when there
/// is none.
pub open spec fn next_slash(s: Seq<char>, i: int) -> int
    decreases s.len() - i,
    when 0 <= i <= s.len()
{
    if i >= s.len() {
        i
    } else if s[i] == '/' {
        i
    } else {
        next_slash(s, i + 1)
    }
}

pub proof fn lemma_next_slash(s: Seq<char>, i: int)
    requires
        0 <= i <= s.len(),
    ensures
        i <= next_slash(s, i) <= s.len(),
        forall|k: int| i <= k < next_slash(s, i) ==> s[k] != '/',
        next_slash(s, i) < s.len() ==> s[next_slash(s, i)] == '/',
    decreases s.len() - i,
{
    if i >= s.len() {
    } else if s[i] == '/' {
    } else {
        lemma_next_slash(s, i + 1);
    }
}

/// A scan that already found the stretch of non-slash characters pins the
/// next slash down.
pub proof fn lemma_next_slash_is(s: Seq<char>, i: int, j: int)
    requires
        0 <= i <= j <= s.len(),
        forall|k: int| i <= k < j ==> s[k] != '/',
        j < s.len() ==> s[j] == '/',
    ensures
        next_slash(s, i) == j,
    decreases j - i,
{
    if i < j {
        lemma_next_slash_is(s, i + 1, j);
    }
}

/// The path split into its segments from position `i` on: maximal stretches
/// of non-slash characters, empty stretches discarded.
pub open spec fn segments_from(s: Seq<char>, i: int) -> Seq<Seq<char>>
    decreases s.len() - i,
    when 0 <= i <= s.len()
{
    if i >= s.len() {
        Seq::empty()
    } else if s[i] == '/' {
        segments_from(s, i + 1)
    } else {
        proof {
            lemma_next_slash(s, i);
        }
        seq![s.subrange(i, next_slash(s, i))] + segments_from(s, next_slash(s, i))
    }
}

/// The segments of a whole path.
pub open spec fn segments(s: Seq<char>) -> Seq<Seq<char>> {
    segments_from(s, 0)
}

/// The views of a vector of owned segments.
pub open spec fn str_views(v: Seq<String>) -> Seq<Seq<char>> {
    v.map_values(|x: String| x@)
}

/// Split a path on `/`, discarding empty segments.
pub fn split_segments(s: &str) -> (out: Vec<String>)
    ensures
        str_views(out@) == segments(s@),
{
    let n = s.unicode_len();
    let mut out: Vec<String> = Vec::new();
    let mut i: usize = 0;
    while i < n
        invariant
            n == s@.len(),
            0 <= i <= n,
            segments(s@) == str_views(out@) + segments_from(s@, i as int),
        decreases n - i,
    {
        if s.get_char(i) == '/' {
            i = i + 1;
        } else {
            let mut j = i + 1;
            while j < n && s.get_char(j) != '/'
                invariant
                    n == s@.len(),
                    i < j <= n,
                    forall|k: int| i <= k < j ==> s@[k] != '/',
                decreases n - j,
            {
                j = j + 1;
            }
            proof {
                lemma_next_slash_is(s@, i as int, j as int);
            }
            let piece: String = s.substring_char(i, j).to_owned();
            let ghost old_out = out@;
            out.push(piece);
            proof {
                assert(str_views(out@) =~= str_views(old_out).push(piece@));
                assert(str_views(out@) + segments_from(s@, j as int) =~= str_views(old_out)
                    + segments_from(s@, i as int));
            }
            i = j;
        }
    }
    proof {
        assert(segments(s@) =~= str_views(out@));
    }
    out
}

/// The UTF-8 byte length of a string, as `str::len` reports it.
pub open spec fn byte_len(s: Seq<char>) -> int {
    (vstd::utf8::encode_utf8(s).len() as usize) as int
}

/// The decimal digit characters.
pub open spec fn dec_digit(d: int) -> char {
    if d == 0 {
        '0'
    } else if d == 1 {
        '1'
    } else if d == 2 {
        '2'
    } else if d == 3 {
        '3'
    } else if d == 4 {
        '4'
    } else if d == 5 {
        '5'
    } else if d == 6 {
        '6'
    } else if d == 7 {
        '7'
    } else if d == 8 {
        '8'
    } else {
        '9'
    }
}

/// The decimal rendering of a non-negative number, most significant digit
/// first and without leading zeroes.
pub open spec fn dec_rep(n: int) -> Seq<char>
    decreases n,
    when n >= 0
{
    if n < 10 {
        seq![dec_digit(n)]
    } else {
        dec_rep(n / 10).push(dec_digit(n % 10))
    }
}

fn digit_char(d: u8) -> (c: char)
    requires
        d < 10,
    ensures
        c == dec_digit(d as int),
{
    match d {
        0 => '0',
        1 => '1',
        2 => '2',
        3 => '3',
        4 => '4',
        5 => '5',
        6 => '6',
        7 => '7',
        8 => '8',
        _ => '9',
    }
}

/// The decimal text of a status code, as it keys a response table.
pub fn u16_to_string(x: u16) -> (r: String)
    ensures
        r@ == dec_rep(x as int),
    decreases x,
{
    if x < 10 {
        let mut s = String::new();
        push_char(&mut s, digit_char(x as u8));
        proof {
            assert(s@ =~= dec_rep(x as int));
        }
        s
    } else {
        let mut s = u16_to_string(x / 10);
        push_char(&mut s, digit_char((x % 10) as u8));
        s
    }
}

} // verus!
