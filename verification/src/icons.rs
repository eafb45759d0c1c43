//! The icon font's codepoint table.
//!
//! The table text lists one glyph per line as `name codepoint`, the
//! codepoint in hexadecimal.  Looking an icon up resolves its name to the
//! glyph character, falling back to a fixed help glyph for unknown names.

use vstd::prelude::*;

use crate::hex::{all_hex_digits, hex_value_of, parse_hex_usize};
use crate::util::{char_from_u32, push_char, str_eq};

verus! {

/// The whitespace the table text is trimmed of.
pub open spec fn is_line_space(c: char) -> bool {
    c == ' ' || c == '\t' || c == '\r' || c == '\n'
}

/// `s` without leading and trailing whitespace.
pub open spec fn trim_spaces(s: Seq<char>) -> Seq<char>
    decreases s.len(),
{
    if s.len() == 0 {
        s
    } else if is_line_space(s[0]) {
        trim_spaces(s.drop_first())
    } else if is_line_space(s.last()) {
        trim_spaces(s.drop_last())
    } else {
        s
    }
}

/// Index of the first occurrence of `c` in `s` (`s.len()` when absent).
pub open spec fn first_char(s: Seq<char>, c: char) -> int
    decreases s.len(),
{
    if s.len() == 0 {
        0
    } else if s[0] == c {
        0
    } else {
        1 + first_char(s.drop_first(), c)
    }
}

/// The entry a table line yields: the line split at its first space, or
/// nothing for a line without one.
pub open spec fn line_entry(line: Seq<char>) -> Option<(Seq<char>, Seq<char>)> {
    let k = first_char(line, ' ');
    if 0 <= k < line.len() {
        Some((line.take(k), line.skip(k + 1)))
    } else {
        None
    }
}

/// The entry of one line as a sequence (empty for a skipped line).
pub open spec fn line_entries(line: Seq<char>) -> Seq<(Seq<char>, Seq<char>)> {
    match line_entry(line) {
        Some(e) => seq![e],
        None => Seq::<(Seq<char>, Seq<char>)>::empty(),
    }
}

/// The entries of the whole (already trimmed) table text, line by line.
pub open spec fn codepoint_entries(s: Seq<char>) -> Seq<(Seq<char>, Seq<char>)>
    decreases s.len(),
{
    if s.len() == 0 {
        Seq::<(Seq<char>, Seq<char>)>::empty()
    } else {
        let k = first_char(s, '\n');
        if 0 <= k < s.len() {
            line_entries(s.take(k)) + codepoint_entries(s.skip(k + 1))
        } else {
            line_entries(s)
        }
    }
}

/// The codepoint recorded for `key`: that of the last entry bearing it.
pub open spec fn lookup(t: Seq<(Seq<char>, Seq<char>)>, key: Seq<char>) -> Option<Seq<char>>
    decreases t.len(),
{
    if t.len() == 0 {
        None
    } else if t.last().0 == key {
        Some(t.last().1)
    } else {
        lookup(t.drop_last(), key)
    }
}

/// The glyph names and hexadecimal codepoints of an icon font.
pub struct CodepointTable {
    pub entries: Vec<(String, String)>,
}

/// The entries of a table as character sequences.
pub open spec fn table_view(entries: Seq<(String, String)>) -> Seq<(Seq<char>, Seq<char>)> {
    entries.map_values(|e: (String, String)| (e.0@, e.1@))
}

/// Where the first `m` characters differ from `c` and `s[m]` is `c` or the
/// end, the first occurrence is at `m`.
proof fn lemma_first_char_at(s: Seq<char>, c: char, m: int)
    requires
        0 <= m <= s.len(),
        forall|i: int| 0 <= i < m ==> s[i] != c,
        m < s.len() ==> s[m] == c,
    ensures
        first_char(s, c) == m,
    decreases m,
{
    if s.len() > 0 && s[0] != c {
        let rest = s.drop_first();
        assert(forall|i: int| 0 <= i < rest.len() ==> rest[i] == #[trigger] s[i + 1]);
        lemma_first_char_at(rest, c, m - 1);
    }
}

/// Trimming removes exactly the whitespace margins `[0, a)` and `[b, len)`.
proof fn lemma_trim_range(s: Seq<char>, a: int, b: int)
    requires
        0 <= a <= b <= s.len(),
        forall|i: int| 0 <= i < a ==> is_line_space(#[trigger] s[i]),
        forall|i: int| b <= i < s.len() ==> is_line_space(#[trigger] s[i]),
        a < b ==> !is_line_space(s[a]),
        a < b ==> !is_line_space(s[b - 1]),
    ensures
        trim_spaces(s) =~= s.subrange(a, b),
    decreases s.len(),
{
    if s.len() == 0 {
    } else if is_line_space(s[0]) {
        let rest = s.drop_first();
        assert(forall|i: int| 0 <= i < rest.len() ==> rest[i] == #[trigger] s[i + 1]);
        if a == b {
            lemma_trim_range(rest, 0, 0);
            assert(s.subrange(a, b) =~= rest.subrange(0, 0));
        } else {
            lemma_trim_range(rest, a - 1, b - 1);
            assert(s.subrange(a, b) =~= rest.subrange(a - 1, b - 1));
        }
    } else if is_line_space(s.last()) {
        let rest = s.drop_last();
        assert(a < b);
        assert(b < s.len()) by {
            if b == s.len() {
                assert(is_line_space(s[b - 1]));
            }
        }
        lemma_trim_range(rest, a, b);
        assert(s.subrange(a, b) =~= rest.subrange(a, b));
    } else {
        assert(a == 0) by {
            if a > 0 {
                assert(is_line_space(s[0]));
            }
        }
        assert(b == s.len()) by {
            if b < s.len() {
                assert(is_line_space(s.last()));
            }
        }
        assert(s.subrange(0, s.len() as int) =~= s);
    }
}

/// Whether `c` is one of the trimmed whitespace characters.
fn is_space_char(c: char) -> (r: bool)
    ensures
        r == is_line_space(c),
{
    c == ' ' || c == '\t' || c == '\r' || c == '\n'
}

/// `text` without leading and trailing whitespace.
fn trim(text: &str) -> (r: &str)
    ensures
        r@ == trim_spaces(text@),
{
    let n = text.unicode_len();
    let mut a: usize = 0;
    while a < n && is_space_char(text.get_char(a))
        invariant
            0 <= a <= n,
            n == text@.len(),
            forall|i: int| 0 <= i < a ==> is_line_space(#[trigger] text@[i]),
        decreases n - a,
    {
        a = a + 1;
    }
    if a == n {
        proof {
            lemma_trim_range(text@, n as int, n as int);
        }
        let r = text.substring_char(n, n);
        return r;
    }
    let mut b: usize = n;
    while b > a && is_space_char(text.get_char(b - 1))
        invariant
            a < n,
            !is_line_space(text@[a as int]),
            a <= b <= n,
            n == text@.len(),
            forall|i: int| b <= i < n ==> is_line_space(#[trigger] text@[i]),
        decreases b,
    {
        b = b - 1;
    }
    proof {
        lemma_trim_range(text@, a as int, b as int);
    }
    text.substring_char(a, b)
}

/// Parses the codepoint table text: each line `name codepoint`, lines
/// without a space skipped, whitespace margins ignored.
pub fn load_codepoints(text: &str) -> (r: CodepointTable)
    ensures
        table_view(r.entries@) == codepoint_entries(trim_spaces(text@)),
{
    let t = trim(text);
    let n = t.unicode_len();
    let mut entries: Vec<(String, String)> = Vec::new();
    assert(t@.skip(0) =~= t@);
    assert(table_view(entries@) =~= Seq::<(Seq<char>, Seq<char>)>::empty());
    let mut p: usize = 0;
    while p < n
        invariant
            0 <= p <= n,
            n == t@.len(),
            codepoint_entries(t@) == table_view(entries@) + codepoint_entries(t@.skip(p as int)),
        decreases n - p,
    {
        let ghost s = t@.skip(p as int);
        let mut q: usize = p;
        while q < n && t.get_char(q) != '\n'
            invariant
                p <= q <= n,
                n == t@.len(),
                forall|i: int| p <= i < q ==> t@[i] != '\n',
            decreases n - q,
        {
            q = q + 1;
        }
        proof {
            assert(forall|i: int| 0 <= i < q - p ==> s[i] == #[trigger] t@[i + p]);
            lemma_first_char_at(s, '\n', q - p);
        }
        let line = t.substring_char(p, q);
        assert(line@ =~= s.take(q - p));
        let m = line.unicode_len();
        let mut si: usize = 0;
        while si < m && line.get_char(si) != ' '
            invariant
                0 <= si <= m,
                m == line@.len(),
                forall|i: int| 0 <= i < si ==> line@[i] != ' ',
            decreases m - si,
        {
            si = si + 1;
        }
        proof {
            lemma_first_char_at(line@, ' ', si as int);
        }
        let ghost before = entries@;
        if si < m {
            let name = String::from_str(line.substring_char(0, si));
            let value = String::from_str(line.substring_char(si + 1, m));
            assert(name@ =~= line@.take(si as int));
            assert(value@ =~= line@.skip(si as int + 1));
            entries.push((name, value));
            assert(table_view(entries@) =~= table_view(before) + line_entries(line@));
        } else {
            assert(table_view(entries@) =~= table_view(before) + line_entries(line@));
        }
        proof {
            if q < n {
                assert(codepoint_entries(s) == line_entries(s.take(q - p)) + codepoint_entries(
                    s.skip(q - p + 1),
                ));
                assert(t@.skip(q + 1) =~= s.skip(q - p + 1));
            } else {
                assert(codepoint_entries(s) == line_entries(s.take(q - p))) by {
                    assert(s.take(q - p) =~= s);
                }
            }
        }
        if q < n {
            p = q + 1;
        } else {
            proof {
                assert(t@.skip(n as int) =~= Seq::<char>::empty());
            }
            p = n;
        }
    }
    assert(t@.skip(n as int) =~= Seq::<char>::empty());
    CodepointTable { entries }
}

/// The codepoint an icon name resolves to: its table entry, or the fixed
/// help glyph for a name the table does not know.
pub open spec fn resolved_codepoint(t: Seq<(Seq<char>, Seq<char>)>, id: Seq<char>) -> Seq<char> {
    match lookup(t, id) {
        Some(c) => c,
        None => "f1c0"@,
    }
}

/// A codepoint string that denotes a real character: hexadecimal, no
/// surrogate, within the code space.
pub open spec fn valid_codepoint(s: Seq<char>) -> bool {
    &&& s.len() > 0
    &&& all_hex_digits(s)
    &&& (hex_value_of(s) < 0xD800 || (0xE000 <= hex_value_of(s) && hex_value_of(s) <= 0x10FFFF))
}

impl CodepointTable {
    /// Looks a glyph name up; the last entry with the name wins.
    pub fn lookup_codepoint<'a>(&'a self, id: &str) -> (r: Option<&'a String>)
        ensures
            match r {
                Some(c) => lookup(table_view(self.entries@), id@) == Some(c@),
                None => lookup(table_view(self.entries@), id@) is None,
            },
    {
        let ghost tv = table_view(self.entries@);
        let mut i: usize = self.entries.len();
        assert(tv.take(i as int) =~= tv);
        while i > 0
            invariant
                0 <= i <= self.entries@.len(),
                tv == table_view(self.entries@),
                lookup(tv, id@) == lookup(tv.take(i as int), id@),
            decreases i,
        {
            assert(tv.take(i as int).last() == tv[i - 1]);
            assert(tv.take(i as int).drop_last() =~= tv.take(i - 1));
            if str_eq(self.entries[i - 1].0.as_str(), id) {
                return Some(&self.entries[i - 1].1);
            }
            i = i - 1;
        }
        assert(tv.take(0) =~= Seq::<(Seq<char>, Seq<char>)>::empty());
        None
    }
}

/// Resolves an icon name to its one-character glyph string.
///
/// An unknown name falls back to the help glyph.  The table must carry a
/// well-formed codepoint for the name (the wire table always does); the
/// fallback's codepoint is well-formed by construction.
pub fn material_design_icon(table: &CodepointTable, id: &str) -> (r: String)
    requires
        valid_codepoint(resolved_codepoint(table_view(table.entries@), id@)),
    ensures
        r@ == seq![
            (hex_value_of(resolved_codepoint(table_view(table.entries@), id@)) as char),
        ],
{
    let cp: &str = match table.lookup_codepoint(id) {
        Some(c) => c.as_str(),
        None => "f1c0",
    };
    assert(cp@ == resolved_codepoint(table_view(table.entries@), id@));
    let v: usize = match parse_hex_usize(cp) {
        Some(v) => v,
        None => 0,
    };
    let c: char = match char_from_u32(v as u32) {
        Some(c) => c,
        None => ' ',
    };
    let mut out = String::new();
    push_char(&mut out, c);
    out
}

} // verus!
