//! Character-level utilities shared by the tokenizer, the path
//! normalizer and the block converter: whitespace classification,
//! newline collapsing, prefix tests and splitting.

use vstd::prelude::*;

verus! {

/// Whether `c` has the Unicode `White_Space` property (the set that
/// `char::is_whitespace` recognises), written out as the fixed list of
/// code points so that it can be reasoned about directly.
pub open spec fn is_space_char(c: char) -> bool {
    let u = c as u32;
    (0x09 <= u && u <= 0x0D) || u == 0x20 || u == 0x85 || u == 0xA0 || u == 0x1680 || (0x2000
        <= u && u <= 0x200A) || u == 0x2028 || u == 0x2029 || u == 0x202F || u == 0x205F || u
        == 0x3000
}

/// Executable test for `is_space_char`.
#[verifier::when_used_as_spec(is_space_char)]
pub fn is_space(c: char) -> (r: bool)
    ensures
        r == is_space_char(c),
{
    let u = c as u32;
    (0x09 <= u && u <= 0x0D) || u == 0x20 || u == 0x85 || u == 0xA0 || u == 0x1680 || (0x2000
        <= u && u <= 0x200A) || u == 0x2028 || u == 0x2029 || u == 0x202F || u == 0x205F || u
        == 0x3000
}

/// The characters of `s`, in order.
pub fn str_to_chars(s: &str) -> (r: Vec<char>)
    ensures
        r@ == s@,
{
    let n = s.unicode_len();
    let mut r: Vec<char> = Vec::new();
    let mut i: usize = 0;
    while i < n
        invariant
            n == s@.len(),
            i <= n,
            r@ == s@.subrange(0, i as int),
        decreases n - i,
    {
        r.push(s.get_char(i));
        i = i + 1;
        proof {
            assert(r@ =~= s@.subrange(0, i as int));
        }
    }
    proof {
        assert(r@ =~= s@);
    }
    r
}

/// `s` with every newline replaced by a single space; nothing else changes.
pub open spec fn replace_nl(s: Seq<char>) -> Seq<char> {
    s.map(
        |_i: int, c: char|
            if c == '\n' {
                ' '
            } else {
                c
            },
    )
}

/// Newlines in `s` become single spaces; every other character, and the
/// length, stay exactly as they were.
pub proof fn lemma_replace_nl_pointwise(s: Seq<char>)
    ensures
        replace_nl(s).len() == s.len(),
        forall|i: int|
            0 <= i < s.len() ==> replace_nl(s)[i] == if s[i] == '\n' {
                ' '
            } else {
                s[i]
            },
        forall|i: int| 0 <= i < s.len() ==> replace_nl(s)[i] != '\n',
{
}

/// `s` with newlines collapsed to single spaces.
pub fn replace_newlines(s: &str) -> (r: String)
    ensures
        r@ == replace_nl(s@),
{
    let chars = str_to_chars(s);
    let mut out: Vec<char> = Vec::new();
    let mut i: usize = 0;
    while i < chars.len()
        invariant
            i <= chars@.len(),
            chars@ == s@,
            out@ == replace_nl(s@.subrange(0, i as int)),
        decreases chars@.len() - i,
    {
        let c = chars[i];
        if c == '\n' {
            out.push(' ');
        } else {
            out.push(c);
        }
        i = i + 1;
        proof {
            assert(out@ =~= replace_nl(s@.subrange(0, i as int)));
        }
    }
    proof {
        assert(s@.subrange(0, s@.len() as int) =~= s@);
    }
    crate::external::chars_to_string(&out)
}

/// Whether `s` begins with two dashes, the metadata directive marker.
pub open spec fn starts_with_dashes(s: Seq<char>) -> bool {
    s.len() >= 2 && s[0] == '-' && s[1] == '-'
}

/// Executable test for the two-dash directive marker.
pub fn has_dash_prefix(s: &str) -> (r: bool)
    ensures
        r == starts_with_dashes(s@),
{
    let n = s.unicode_len();
    n >= 2 && s.get_char(0) == '-' && s.get_char(1) == '-'
}

/// Whether `s` holds nothing but whitespace (so `trim` would empty it).
pub open spec fn all_space(s: Seq<char>) -> bool {
    forall|i: int| 0 <= i < s.len() ==> is_space_char(#[trigger] s[i])
}

/// Executable test for `all_space`.
pub fn is_all_space(s: &str) -> (r: bool)
    ensures
        r == all_space(s@),
{
    let n = s.unicode_len();
    let mut i: usize = 0;
    while i < n
        invariant
            n == s@.len(),
            i <= n,
            forall|j: int| 0 <= j < i ==> is_space_char(#[trigger] s@[j]),
        decreases n - i,
    {
        if !is_space(s.get_char(i)) {
            return false;
        }
        i = i + 1;
    }
    true
}

/// Index of the first occurrence of `c` at or after `i`, or the length
/// of `s`.
pub open spec fn find_char(s: Seq<char>, i: int, c: char) -> int
    decreases s.len() - i when 0 <= i <= s.len()
{
    if i >= s.len() {
        s.len() as int
    } else if s[i] == c {
        i
    } else {
        find_char(s, i + 1, c)
    }
}

/// Where nothing in `[start, i)` is `c` and `i` sits on `c` or at the
/// end, the first occurrence from `start` is at `i`.
pub proof fn lemma_find_char_at(s: Seq<char>, start: int, i: int, c: char)
    requires
        0 <= start <= i <= s.len(),
        forall|j: int| start <= j < i ==> s[j] != c,
        i == s.len() || s[i] == c,
    ensures
        find_char(s, start, c) == i,
    decreases i - start,
{
    if start < i {
        lemma_find_char_at(s, start + 1, i, c);
    }
}

/// The prefix of `s` up to (not including) the first occurrence of `c`.
pub fn take_until_char(s: &str, c: char) -> (r: String)
    ensures
        r@ == s@.subrange(0, find_char(s@, 0, c)),
{
    let chars = str_to_chars(s);
    let n = chars.len();
    let mut out: Vec<char> = Vec::new();
    let mut i: usize = 0;
    while i < n
        invariant
            n == s@.len(),
            chars@ == s@,
            i <= n,
            forall|j: int| 0 <= j < i ==> s@[j] != c,
            out@ == s@.subrange(0, i as int),
        decreases n - i,
    {
        if chars[i] == c {
            proof {
                lemma_find_char_at(s@, 0, i as int, c);
            }
            return crate::external::chars_to_string(&out);
        }
        out.push(chars[i]);
        i = i + 1;
        proof {
            assert(out@ =~= s@.subrange(0, i as int));
        }
    }
    proof {
        lemma_find_char_at(s@, 0, s@.len() as int, c);
    }
    crate::external::chars_to_string(&out)
}

/// Character-for-character equality of two string slices.
pub fn str_eq(a: &str, b: &str) -> (r: bool)
    ensures
        r == (a@ == b@),
{
    let na = a.unicode_len();
    let nb = b.unicode_len();
    if na != nb {
        proof {
            assert(a@ != b@) by {
                assert(a@.len() != b@.len());
            }
        }
        return false;
    }
    let mut i: usize = 0;
    while i < na
        invariant
            na == a@.len(),
            na == b@.len(),
            i <= na,
            forall|j: int| 0 <= j < i ==> a@[j] == b@[j],
        decreases na - i,
    {
        if a.get_char(i) != b.get_char(i) {
            return false;
        }
        i = i + 1;
    }
    proof {
        assert(a@ =~= b@);
    }
    true
}

/// Whether `p` is a prefix of `s`.
pub open spec fn is_prefix_of(p: Seq<char>, s: Seq<char>) -> bool {
    p.len() <= s.len() && s.subrange(0, p.len() as int) == p
}

/// Whether `x` is a suffix of `s`.
pub open spec fn is_suffix_of(x: Seq<char>, s: Seq<char>) -> bool {
    x.len() <= s.len() && s.subrange(s.len() - x.len(), s.len() as int) == x
}

/// Executable suffix test.
pub fn ends_with_str(s: &str, x: &str) -> (r: bool)
    ensures
        r == is_suffix_of(x@, s@),
{
    let ns = s.unicode_len();
    let nx = x.unicode_len();
    if nx > ns {
        return false;
    }
    let mut i: usize = 0;
    while i < nx
        invariant
            ns == s@.len(),
            nx == x@.len(),
            nx <= ns,
            i <= nx,
            forall|j: int| 0 <= j < i ==> s@[ns - nx + j] == x@[j],
        decreases nx - i,
    {
        if s.get_char(ns - nx + i) != x.get_char(i) {
            proof {
                assert(s@.subrange(s@.len() - x@.len(), s@.len() as int)[i as int] == s@[ns - nx
                    + i]);
            }
            return false;
        }
        i = i + 1;
    }
    proof {
        assert(s@.subrange(s@.len() - x@.len(), s@.len() as int) =~= x@);
    }
    true
}

} // verus!
