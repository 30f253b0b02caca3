//! Small verified text utilities shared by the other modules: ASCII case
//! mapping, decimal and hexadecimal rendering, and cloning helpers whose
//! results are pinned down exactly.
use vstd::prelude::*;

verus! {

use vstd::string::StringExecFns;

pub assume_specification [ String::push ](s: &mut String, ch: char)
    ensures
        final(s)@ == old(s)@.push(ch),
;

/// ASCII uppercase of one character; everything outside 'a'..'z' is kept.
pub open spec fn upper_char(c: char) -> char {
    if 97 <= c as u32 && (c as u32) <= 122 {
        ((c as u8) - 32) as char
    } else {
        c
    }
}

/// ASCII lowercase of one character; everything outside 'A'..'Z' is kept.
pub open spec fn lower_char(c: char) -> char {
    if 65 <= c as u32 && (c as u32) <= 90 {
        ((c as u8) + 32) as char
    } else {
        c
    }
}

pub open spec fn upper_seq(s: Seq<char>) -> Seq<char> {
    s.map_values(|c: char| upper_char(c))
}

pub open spec fn lower_seq(s: Seq<char>) -> Seq<char> {
    s.map_values(|c: char| lower_char(c))
}

pub fn to_upper_char(c: char) -> (r: char)
    ensures
        r == upper_char(c),
{
    if c as u32 >= 97 && (c as u32) <= 122 {
        ((c as u8) - 32) as char
    } else {
        c
    }
}

pub fn to_lower_char(c: char) -> (r: char)
    ensures
        r == lower_char(c),
{
    if c as u32 >= 65 && (c as u32) <= 90 {
        ((c as u8) + 32) as char
    } else {
        c
    }
}

/// ASCII uppercase of a whole string, character by character.
pub fn to_upper(s: &str) -> (r: String)
    ensures
        r@ == upper_seq(s@),
{
    let n = s.unicode_len();
    let mut r = String::new();
    let mut i: usize = 0;
    while i < n
        invariant
            n == s@.len(),
            i <= n,
            r@ == upper_seq(s@.take(i as int)),
        decreases n - i,
    {
        let c = s.get_char(i);
        r.push(to_upper_char(c));
        proof {
            assert(s@.take(i + 1 as int) =~= s@.take(i as int).push(s@[i as int]));
            assert(upper_seq(s@.take(i + 1 as int)) =~= upper_seq(s@.take(i as int)).push(
                upper_char(s@[i as int]),
            ));
        }
        i = i + 1;
    }
    proof {
        assert(s@.take(n as int) =~= s@);
    }
    r
}

/// ASCII lowercase of a whole string, character by character.
pub fn to_lower(s: &str) -> (r: String)
    ensures
        r@ == lower_seq(s@),
{
    let n = s.unicode_len();
    let mut r = String::new();
    let mut i: usize = 0;
    while i < n
        invariant
            n == s@.len(),
            i <= n,
            r@ == lower_seq(s@.take(i as int)),
        decreases n - i,
    {
        let c = s.get_char(i);
        r.push(to_lower_char(c));
        proof {
            assert(s@.take(i + 1 as int) =~= s@.take(i as int).push(s@[i as int]));
            assert(lower_seq(s@.take(i + 1 as int)) =~= lower_seq(s@.take(i as int)).push(
                lower_char(s@[i as int]),
            ));
        }
        i = i + 1;
    }
    proof {
        assert(s@.take(n as int) =~= s@);
    }
    r
}

pub open spec fn dec_digit(n: u64) -> char {
    ((48 + n % 10) as u8) as char
}

/// Decimal rendering of an unsigned number, most significant digit first.
pub open spec fn dec_seq(n: u64) -> Seq<char>
    decreases n,
{
    if n < 10 {
        seq![dec_digit(n)]
    } else {
        dec_seq((n / 10) as u64).push(dec_digit(n))
    }
}

fn dec_digit_char(d: u64) -> (r: char)
    requires
        d < 10,
    ensures
        r == dec_digit(d),
{
    ((48 + d) as u8) as char
}

/// Renders a number in decimal, e.g. 204 as "204".
pub fn u64_to_dec(n: u64) -> (r: String)
    ensures
        r@ == dec_seq(n),
    decreases n,
{
    if n < 10 {
        let mut r = String::new();
        r.push(dec_digit_char(n));
        r
    } else {
        let mut r = u64_to_dec(n / 10);
        r.push(dec_digit_char(n % 10));
        r
    }
}

pub open spec fn hex_digit(n: u8) -> char {
    if n < 10 {
        ((48 + n) as u8) as char
    } else {
        ((87 + n) as u8) as char
    }
}

/// Lowercase hexadecimal rendering, two digits per byte.
pub open spec fn hex_seq(bytes: Seq<u8>) -> Seq<char> {
    Seq::new(
        bytes.len() * 2,
        |i: int|
            if i % 2 == 0 {
                hex_digit((bytes[i / 2] / 16) as u8)
            } else {
                hex_digit((bytes[i / 2] % 16) as u8)
            },
    )
}

fn hex_digit_char(n: u8) -> (r: char)
    requires
        n < 16,
    ensures
        r == hex_digit(n),
{
    if n < 10 {
        ((48 + n) as u8) as char
    } else {
        ((87 + n) as u8) as char
    }
}

/// Renders bytes as lowercase hex, e.g. [171, 1] as "ab01".
pub fn bytes_to_hex(bytes: &Vec<u8>) -> (r: String)
    ensures
        r@ == hex_seq(bytes@),
{
    let n = bytes.len();
    let mut r = String::new();
    let mut i: usize = 0;
    while i < n
        invariant
            n == bytes@.len(),
            i <= n,
            r@ =~= hex_seq(bytes@.take(i as int)),
        decreases n - i,
    {
        let b = bytes[i];
        r.push(hex_digit_char(b / 16));
        r.push(hex_digit_char(b % 16));
        proof {
            let t1 = hex_seq(bytes@.take(i + 1 as int));
            let t0 = hex_seq(bytes@.take(i as int));
            assert forall|j: int| 0 <= j < t1.len() implies t1[j] == t0.push(
                hex_digit((bytes@[i as int] / 16) as u8),
            ).push(hex_digit((bytes@[i as int] % 16) as u8))[j] by {
                assert(bytes@.take(i + 1 as int)[j / 2] == if j / 2 < i {
                    bytes@.take(i as int)[j / 2]
                } else {
                    bytes@[i as int]
                });
            }
            assert(t1 =~= t0.push(hex_digit((bytes@[i as int] / 16) as u8)).push(
                hex_digit((bytes@[i as int] % 16) as u8),
            ));
        }
        i = i + 1;
    }
    proof {
        assert(bytes@.take(n as int) =~= bytes@);
    }
    r
}

/// A clone of a string whose result is known to equal the input.
pub fn clone_string(s: &String) -> (r: String)
    ensures
        r == *s,
{
    s.clone()
}

pub fn clone_opt_string(o: &Option<String>) -> (r: Option<String>)
    ensures
        r == *o,
{
    match o {
        Option::None => Option::None,
        Option::Some(s) => Option::Some(s.clone()),
    }
}

pub fn clone_vec_string(v: &Vec<String>) -> (r: Vec<String>)
    ensures
        r@ == v@,
{
    let mut r: Vec<String> = Vec::new();
    let mut i: usize = 0;
    while i < v.len()
        invariant
            i <= v@.len(),
            r@ =~= v@.take(i as int),
        decreases v@.len() - i,
    {
        r.push(v[i].clone());
        i = i + 1;
    }
    proof {
        assert(v@.take(v@.len() as int) =~= v@);
    }
    r
}

/// A lowercase hexadecimal digit: '0'..'9' or 'a'..'f'.
pub open spec fn is_lower_hex_digit(c: char) -> bool {
    (48 <= c as u32 && (c as u32) <= 57) || (97 <= c as u32 && (c as u32) <= 102)
}

/// An uppercase hexadecimal digit: '0'..'9' or 'A'..'F'.
pub open spec fn is_upper_hex_digit(c: char) -> bool {
    (48 <= c as u32 && (c as u32) <= 57) || (65 <= c as u32 && (c as u32) <= 70)
}

/// The views of a sequence of strings.
pub open spec fn seq_views(v: Seq<String>) -> Seq<Seq<char>> {
    v.map_values(|s: String| s@)
}

pub fn vec_str0() -> (r: Vec<String>)
    ensures
        seq_views(r@) == Seq::<Seq<char>>::empty(),
{
    let r: Vec<String> = Vec::new();
    proof {
        assert(seq_views(r@) =~= Seq::<Seq<char>>::empty());
    }
    r
}

pub fn vec_str1(a: &str) -> (r: Vec<String>)
    ensures
        seq_views(r@) == seq![a@],
{
    let mut r: Vec<String> = Vec::new();
    r.push(String::from_str(a));
    proof {
        assert(seq_views(r@) =~= seq![a@]);
    }
    r
}

pub fn vec_str2(a: &str, b: &str) -> (r: Vec<String>)
    ensures
        seq_views(r@) == seq![a@, b@],
{
    let mut r: Vec<String> = Vec::new();
    r.push(String::from_str(a));
    r.push(String::from_str(b));
    proof {
        assert(seq_views(r@) =~= seq![a@, b@]);
    }
    r
}

/// The needle occurs in the haystack starting at position k.
pub open spec fn contains_at(hay: Seq<char>, needle: Seq<char>, k: int) -> bool {
    hay.subrange(k, k + needle.len()) == needle
}

/// Plain substring containment; an empty needle is contained everywhere.
pub open spec fn is_substring(hay: Seq<char>, needle: Seq<char>) -> bool {
    exists|k: int| 0 <= k <= hay.len() - needle.len() && #[trigger] contains_at(hay, needle, k)
}

/// Case-insensitive substring containment, folding ASCII case on both
/// sides: the library's reading of a SQL ILIKE '%needle%'.
pub open spec fn is_substring_ci(hay: Seq<char>, needle: Seq<char>) -> bool {
    is_substring(lower_seq(hay), lower_seq(needle))
}

/// Naive substring search, exactly `is_substring`.
pub fn contains_str(hay: &str, needle: &str) -> (r: bool)
    ensures
        r == is_substring(hay@, needle@),
{
    let n = hay.unicode_len();
    let m = needle.unicode_len();
    if m > n {
        proof {
            assert(forall|k: int|
                0 <= k <= hay@.len() - needle@.len() ==> !(#[trigger] contains_at(
                    hay@,
                    needle@,
                    k,
                )));
        }
        return false;
    }
    let mut k: usize = 0;
    while k <= n - m
        invariant
            n == hay@.len(),
            m == needle@.len(),
            m <= n,
            k <= n - m + 1,
            forall|k2: int| 0 <= k2 < k ==> !(#[trigger] contains_at(hay@, needle@, k2)),
        decreases n - m + 1 - k,
    {
        let mut j: usize = 0;
        let mut matching = true;
        while j < m && matching
            invariant
                n == hay@.len(),
                m == needle@.len(),
                k + m <= n,
                j <= m,
                matching ==> forall|j2: int| 0 <= j2 < j ==> hay@[k + j2] == needle@[j2],
                !matching ==> j < m && hay@[k + j] != needle@[j as int],
            decreases m - j + (if matching { 1int } else { 0int }),
        {
            if hay.get_char(k + j) != needle.get_char(j) {
                matching = false;
            } else {
                j = j + 1;
            }
        }
        if matching {
            proof {
                assert(hay@.subrange(k as int, k + needle@.len()) =~= needle@);
                assert(contains_at(hay@, needle@, k as int));
            }
            return true;
        }
        proof {
            assert(hay@.subrange(k as int, k + needle@.len())[j as int] == hay@[k + j]);
            assert(hay@.subrange(k as int, k + needle@.len())[j as int] != needle@[j as int]);
            assert(!contains_at(hay@, needle@, k as int));
        }
        k = k + 1;
    }
    false
}

/// Case-insensitive containment, folding both sides to ASCII lowercase.
pub fn contains_ci(hay: &str, needle: &str) -> (r: bool)
    ensures
        r == is_substring_ci(hay@, needle@),
{
    let h = to_lower(hay);
    let nd = to_lower(needle);
    contains_str(h.as_str(), nd.as_str())
}

} // verus!
