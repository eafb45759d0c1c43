//! Small text helpers shared by the bar components.
//!
//! Component labels are Pango markup strings; dimming a label wraps it in a
//! half-transparent span, and numeric labels are padded with dimmed leading
//! zeros so that their width stays stable.

use vstd::prelude::*;

verus! {

/// `s` wrapped in a half-transparent Pango span.
pub open spec fn dim_span(s: Seq<char>) -> Seq<char> {
    "<span alpha=\"50%\">"@ + s + "</span>"@
}

/// `c` repeated `n` times.
pub open spec fn repeat_char(c: char, n: nat) -> Seq<char>
    decreases n,
{
    if n == 0 {
        Seq::<char>::empty()
    } else {
        repeat_char(c, (n - 1) as nat) + seq![c]
    }
}

/// Wraps `text` in a dimming span when `cond` holds, and returns it unchanged
/// otherwise.
pub fn dim_if(text: String, cond: bool) -> (r: String)
    ensures
        cond ==> r@ == dim_span(text@),
        !cond ==> r@ == text@,
{
    if cond {
        let mut r = String::from_str("<span alpha=\"50%\">");
        r.append(text.as_str());
        r.append("</span>");
        r
    } else {
        text
    }
}

/// Prefixes `text` with dimmed `'0'` characters until the undimmed part plus
/// the zeros reaches `max_length` characters; text already that long is kept
/// as it is.
pub fn pad_with_dim_leading_zeros(text: String, max_length: usize) -> (r: String)
    ensures
        r@ == dim_span(
            repeat_char('0', if text@.len() < max_length { (max_length - text@.len()) as nat } else { 0 }),
        ) + text@,
{
    let len = text.unicode_len();
    let missing: usize = if len < max_length {
        max_length - len
    } else {
        0
    };
    let mut zeros = String::new();
    let mut i: usize = 0;
    while i < missing
        invariant
            0 <= i <= missing,
            zeros@ == repeat_char('0', i as nat),
        decreases missing - i,
    {
        zeros.append("0");
        assert(repeat_char('0', (i + 1) as nat) =~= repeat_char('0', i as nat) + "0"@) by {
            reveal_strlit("0");
        }
        i = i + 1;
    }
    let mut r = dim_if(zeros, true);
    r.append(text.as_str());
    r
}

/// Character-wise string equality.
pub fn str_eq(a: &str, b: &str) -> (r: bool)
    ensures
        r == (a@ == b@),
{
    let n = a.unicode_len();
    if n != b.unicode_len() {
        return false;
    }
    let mut i: usize = 0;
    while i < n
        invariant
            0 <= i <= n,
            n == a@.len(),
            n == b@.len(),
            forall|j: int| 0 <= j < i ==> a@[j] == b@[j],
        decreases n - i,
    {
        if a.get_char(i) != b.get_char(i) {
            return false;
        }
        i = i + 1;
    }
    proof {
        assert(a@ =~= b@);
    }
    true
}

/// True when `needle` occurs in `hay` starting at position `k`.
pub open spec fn occurs_at(hay: Seq<char>, needle: Seq<char>, k: int) -> bool {
    0 <= k && k + needle.len() <= hay.len() && hay.subrange(k, k + needle.len() as int) == needle
}

/// True when `needle` occurs somewhere in `hay`.
pub open spec fn contains_seq(hay: Seq<char>, needle: Seq<char>) -> bool {
    exists|k: int| occurs_at(hay, needle, k)
}

/// Position of the first occurrence of `needle` in `hay`, as a scan from the
/// left; `hay.len()` when there is none (and the needle is not empty).
pub open spec fn first_occurrence(hay: Seq<char>, needle: Seq<char>) -> int
    decreases hay.len(),
{
    if occurs_at(hay, needle, 0) {
        0
    } else if hay.len() == 0 {
        0
    } else {
        1 + first_occurrence(hay.drop_first(), needle)
    }
}

/// An occurrence one position into `hay` is an occurrence at the front of
/// `hay` without its first character.
proof fn lemma_occurs_shift(hay: Seq<char>, needle: Seq<char>, j: int)
    requires
        hay.len() > 0,
        0 <= j,
    ensures
        occurs_at(hay, needle, j + 1) == occurs_at(hay.drop_first(), needle, j),
{
    if j + 1 + needle.len() <= hay.len() {
        assert(hay.subrange(j + 1, j + 1 + needle.len() as int) =~= hay.drop_first().subrange(
            j,
            j + needle.len() as int,
        ));
    }
}

/// `first_occurrence` names the least occurrence, or `hay.len()` when there
/// is none.
pub proof fn lemma_first_occurrence(hay: Seq<char>, needle: Seq<char>)
    requires
        needle.len() > 0,
    ensures
        contains_seq(hay, needle) ==> occurs_at(hay, needle, first_occurrence(hay, needle)),
        forall|j: int| 0 <= j < first_occurrence(hay, needle) ==> !occurs_at(hay, needle, j),
        !contains_seq(hay, needle) ==> first_occurrence(hay, needle) == hay.len(),
    decreases hay.len(),
{
    let fo = first_occurrence(hay, needle);
    if occurs_at(hay, needle, 0) {
    } else if hay.len() == 0 {
        assert(forall|j: int| !occurs_at(hay, needle, j));
    } else {
        let rest = hay.drop_first();
        lemma_first_occurrence(rest, needle);
        assert forall|j: int| 0 <= j implies occurs_at(hay, needle, j + 1) == occurs_at(
            rest,
            needle,
            j,
        ) by {
            lemma_occurs_shift(hay, needle, j);
        }
        if contains_seq(hay, needle) {
            let j = choose|j: int| occurs_at(hay, needle, j);
            assert(occurs_at(rest, needle, j - 1));
            assert(occurs_at(rest, needle, fo - 1));
        }
        assert forall|j: int| 0 <= j < fo implies !occurs_at(hay, needle, j) by {
            if j > 0 {
                assert(!occurs_at(rest, needle, j - 1));
            }
        }
        if !contains_seq(hay, needle) {
            assert(!contains_seq(rest, needle)) by {
                if contains_seq(rest, needle) {
                    let j = choose|j: int| occurs_at(rest, needle, j);
                    assert(occurs_at(hay, needle, j + 1));
                }
            }
        }
    }
}

/// Finds the first occurrence of `needle` in `hay`.
pub fn find_str(hay: &str, needle: &str) -> (r: Option<usize>)
    requires
        needle@.len() > 0,
    ensures
        r is Some <==> contains_seq(hay@, needle@),
        r matches Some(i) ==> i == first_occurrence(hay@, needle@),
{
    proof {
        lemma_first_occurrence(hay@, needle@);
    }
    let n = hay.unicode_len();
    let m = needle.unicode_len();
    if m > n {
        assert(!contains_seq(hay@, needle@));
        return None;
    }
    let mut k: usize = 0;
    while k <= n - m
        invariant
            0 <= k <= n - m + 1,
            0 < m <= n,
            n == hay@.len(),
            m == needle@.len(),
            forall|j: int| 0 <= j < k ==> !occurs_at(hay@, needle@, j),
        decreases n - k,
    {
        let mut i: usize = 0;
        let mut matched = true;
        while i < m
            invariant
                0 <= i <= m,
                k + m <= n,
                n == hay@.len(),
                m == needle@.len(),
                matched ==> forall|j: int| 0 <= j < i ==> hay@[k + j] == needle@[j],
                !matched ==> exists|j: int| 0 <= j < m && hay@[k + j] != needle@[j],
            decreases m - i,
        {
            if hay.get_char(k + i) != needle.get_char(i) {
                assert(hay@[k + i] != needle@[i as int]);
                matched = false;
                i = m;
            } else {
                i = i + 1;
            }
        }
        if matched {
            assert(occurs_at(hay@, needle@, k as int)) by {
                assert(hay@.subrange(k as int, k + needle@.len() as int) =~= needle@);
            }
            proof {
                assert(contains_seq(hay@, needle@));
                lemma_first_occurrence(hay@, needle@);
            }
            return Some(k);
        }
        assert(!occurs_at(hay@, needle@, k as int)) by {
            let j = choose|j: int| 0 <= j < m && hay@[k + j] != needle@[j];
            if hay@.subrange(k as int, k + needle@.len() as int) == needle@ {
                assert(needle@[j] == hay@.subrange(k as int, k + needle@.len() as int)[j]);
            }
        }
        k = k + 1;
    }
    assert(forall|j: int| occurs_at(hay@, needle@, j) ==> 0 <= j <= n - m);
    None
}

/// Substring search.
pub fn str_contains(hay: &str, needle: &str) -> (r: bool)
    ensures
        r == contains_seq(hay@, needle@),
{
    let m = needle.unicode_len();
    if m == 0 {
        assert(occurs_at(hay@, needle@, 0)) by {
            assert(hay@.subrange(0, 0) =~= needle@);
        }
        return true;
    }
    match find_str(hay, needle) {
        Some(_) => true,
        None => false,
    }
}

/// Relies on `String::push`: appends exactly the one character.
#[verifier::external_body]
pub(crate) fn push_char(s: &mut String, c: char)
    ensures
        final(s)@ == old(s)@ + seq![c],
{
    s.push(c);
}

/// Relies on `char::from_u32`: yields the character with scalar value `v`,
/// and `None` exactly for surrogates and values beyond the last code point.
#[verifier::external_body]
pub(crate) fn char_from_u32(v: u32) -> (r: Option<char>)
    ensures
        r matches Some(c) ==> c == (v as char),
        r is Some <==> (v < 0xD800 || (0xE000 <= v && v <= 0x10FFFF)),
{
    char::from_u32(v)
}

/// The decimal digit character for `d`.
pub open spec fn dec_digit_char(d: nat) -> char {
    ((d + ('0' as int)) as char)
}

/// The decimal digit string of `n` (most significant digit first, no leading
/// zeros except for zero itself).
pub open spec fn dec_string_of(n: nat) -> Seq<char>
    decreases n,
{
    if n < 10 {
        seq![dec_digit_char(n)]
    } else {
        dec_string_of(n / 10) + seq![dec_digit_char(n % 10)]
    }
}

/// One decimal digit as a string.
fn dec_digit_str(d: u32) -> (r: &'static str)
    requires
        d < 10,
    ensures
        r@ == seq![dec_digit_char(d as nat)],
{
    proof {
        reveal_strlit("0");
        reveal_strlit("1");
        reveal_strlit("2");
        reveal_strlit("3");
        reveal_strlit("4");
        reveal_strlit("5");
        reveal_strlit("6");
        reveal_strlit("7");
        reveal_strlit("8");
        reveal_strlit("9");
    }
    match d {
        0 => "0",
        1 => "1",
        2 => "2",
        3 => "3",
        4 => "4",
        5 => "5",
        6 => "6",
        7 => "7",
        8 => "8",
        _ => "9",
    }
}

/// Formats `n` in decimal.
pub fn u32_to_decimal(n: u32) -> (r: String)
    ensures
        r@ == dec_string_of(n as nat),
    decreases n,
{
    if n < 10 {
        String::from_str(dec_digit_str(n))
    } else {
        let mut s = u32_to_decimal(n / 10);
        s.append(dec_digit_str(n % 10));
        s
    }
}

} // verus!
