//! Source paths and the run's Path-to-Identifier Map. Paths are plain
//! strings with `/` separators; normalization strips surrounding quote
//! characters from each segment, percent-decodes it, and collapses `..`
//! by removing the preceding segment. The map from normalized source path
//! to destination page identifier is built during the first phase and
//! only read afterwards.

use vstd::prelude::*;

use crate::external::{chars_to_string, pct_decoded, percent_decode};
use crate::text::{str_eq, str_to_chars};

verus! {

/// Index of the first `/` at or after `i`, or the length of `s`.
pub open spec fn find_slash(s: Seq<char>, i: int) -> int
    decreases s.len() - i when 0 <= i <= s.len()
{
    if i >= s.len() {
        s.len() as int
    } else if s[i] == '/' {
        i
    } else {
        find_slash(s, i + 1)
    }
}

pub proof fn lemma_find_slash_bounds(s: Seq<char>, i: int)
    requires
        0 <= i <= s.len(),
    ensures
        i <= find_slash(s, i) <= s.len(),
    decreases s.len() - i,
{
    if i < s.len() && s[i] != '/' {
        lemma_find_slash_bounds(s, i + 1);
    }
}

/// Where nothing in `[start, i)` is a slash and `i` sits on a slash or at
/// the end, the first slash from `start` is at `i`.
pub proof fn lemma_find_slash_at(s: Seq<char>, start: int, i: int)
    requires
        0 <= start <= i <= s.len(),
        forall|j: int| start <= j < i ==> s[j] != '/',
        i == s.len() || s[i] == '/',
    ensures
        find_slash(s, start) == i,
    decreases i - start,
{
    if start < i {
        lemma_find_slash_at(s, start + 1, i);
    }
}

/// The `/`-separated segments of `s` from position `i` on; empty segments
/// are kept, so the empty string has one empty segment.
pub open spec fn split_slash_from(s: Seq<char>, i: int) -> Seq<Seq<char>>
    decreases s.len() - i when 0 <= i <= s.len()
    via split_slash_from_decreases
{
    let e = find_slash(s, i);
    if e >= s.len() {
        seq![s.subrange(i, s.len() as int)]
    } else {
        seq![s.subrange(i, e)] + split_slash_from(s, e + 1)
    }
}

#[via_fn]
proof fn split_slash_from_decreases(s: Seq<char>, i: int) {
    lemma_find_slash_bounds(s, i);
}

/// The `/`-separated segments of the whole of `s`.
pub open spec fn spec_split_slash(s: Seq<char>) -> Seq<Seq<char>> {
    split_slash_from(s, 0)
}

/// Splits a path into its `/`-separated segments.
pub fn split_slash(input: &str) -> (r: Vec<String>)
    ensures
        r.deep_view() == spec_split_slash(input@),
{
    let chars = str_to_chars(input);
    let ghost s = input@;
    let n = chars.len();
    let mut segs: Vec<String> = Vec::new();
    let mut cur: Vec<char> = Vec::new();
    let mut i: usize = 0;
    let ghost mut seg_start: int = 0;
    proof {
        assert(cur@ =~= s.subrange(seg_start, i as int));
    }
    while i < n
        invariant
            chars@ == s,
            n == s.len(),
            0 <= seg_start <= i <= n,
            cur@ == s.subrange(seg_start, i as int),
            forall|j: int| seg_start <= j < i ==> s[j] != '/',
            spec_split_slash(s) == segs.deep_view() + split_slash_from(s, seg_start),
        decreases n - i,
    {
        let c = chars[i];
        if c == '/' {
            proof {
                lemma_find_slash_at(s, seg_start, i as int);
            }
            segs.push(chars_to_string(&cur));
            cur = Vec::new();
            i = i + 1;
            proof {
                let ghost old_start = seg_start;
                seg_start = i as int;
                assert(segs.deep_view() =~= segs.deep_view().drop_last() + seq![
                    s.subrange(old_start, i - 1),
                ]);
                assert(cur@ =~= s.subrange(seg_start, i as int));
                assert(spec_split_slash(s) == segs.deep_view() + split_slash_from(s, seg_start));
            }
        } else {
            cur.push(c);
            i = i + 1;
            proof {
                assert(cur@ =~= s.subrange(seg_start, i as int));
            }
        }
    }
    proof {
        lemma_find_slash_at(s, seg_start, s.len() as int);
        assert(split_slash_from(s, seg_start) == seq![s.subrange(seg_start, s.len() as int)]);
    }
    segs.push(chars_to_string(&cur));
    proof {
        assert(segs.deep_view() =~= segs.deep_view().drop_last() + seq![
            s.subrange(seg_start, s.len() as int),
        ]);
        assert(segs.deep_view() =~= spec_split_slash(s));
    }
    segs
}

/// The segments joined with `/` between them.
pub open spec fn join_slash(v: Seq<Seq<char>>) -> Seq<char>
    decreases v.len(),
{
    if v.len() == 0 {
        Seq::<char>::empty()
    } else if v.len() == 1 {
        v[0]
    } else {
        join_slash(v.drop_last()) + seq!['/'] + v.last()
    }
}

/// Joins segments with `/` between them.
pub fn join_segments(v: &Vec<String>) -> (r: String)
    ensures
        r@ == join_slash(v.deep_view()),
{
    let ghost target = v.deep_view();
    let mut out: Vec<char> = Vec::new();
    let mut i: usize = 0;
    let n = v.len();
    while i < n
        invariant
            n == v@.len(),
            target == v.deep_view(),
            target.len() == n,
            i <= n,
            out@ == join_slash(target.subrange(0, i as int)),
        decreases n - i,
    {
        if i > 0 {
            out.push('/');
        }
        let seg = str_to_chars(v[i].as_str());
        let mut k: usize = 0;
        let m = seg.len();
        proof {
            assert(target[i as int] == v@[i as int]@);
        }
        while k < m
            invariant
                m == seg@.len(),
                k <= m,
                out@ == if i > 0 {
                    join_slash(target.subrange(0, i as int)) + seq!['/'] + seg@.subrange(
                        0,
                        k as int,
                    )
                } else {
                    join_slash(target.subrange(0, i as int)) + seg@.subrange(0, k as int)
                },
            decreases m - k,
        {
            out.push(seg[k]);
            k = k + 1;
            proof {
                if i > 0 {
                    assert(out@ =~= join_slash(target.subrange(0, i as int)) + seq!['/']
                        + seg@.subrange(0, k as int));
                } else {
                    assert(out@ =~= join_slash(target.subrange(0, i as int)) + seg@.subrange(
                        0,
                        k as int,
                    ));
                }
            }
        }
        i = i + 1;
        proof {
            let pre = target.subrange(0, i as int);
            assert(pre.drop_last() =~= target.subrange(0, i - 1));
            assert(seg@.subrange(0, m as int) =~= target[i - 1]);
            if i > 1 {
                assert(out@ =~= join_slash(pre));
            } else {
                assert(out@ =~= join_slash(pre));
            }
        }
    }
    proof {
        assert(target.subrange(0, n as int) =~= target);
    }
    chars_to_string(&out)
}

/// The last index in `[0, i)` where `c` stands, or `-1`.
pub open spec fn last_index_before(s: Seq<char>, i: int, c: char) -> int
    decreases i when i <= s.len()
{
    if i <= 0 {
        -1
    } else if s[i - 1] == c {
        i - 1
    } else {
        last_index_before(s, i - 1, c)
    }
}

pub proof fn lemma_last_index_before_bounds(s: Seq<char>, i: int, c: char)
    requires
        0 <= i <= s.len(),
    ensures
        -1 <= last_index_before(s, i, c) < i,
    decreases i,
{
    if i > 0 && s[i - 1] != c {
        lemma_last_index_before_bounds(s, i - 1, c);
    }
}

/// Where nothing in `(k, i)` is `c` and `k` sits on `c` (or `k == -1` and
/// nothing in `[0, i)` is `c`), the last index is `k`.
pub proof fn lemma_last_index_at(s: Seq<char>, i: int, c: char, k: int)
    requires
        -1 <= k < i <= s.len(),
        k >= 0 ==> s[k] == c,
        forall|j: int| k < j < i ==> s[j] != c,
    ensures
        last_index_before(s, i, c) == k,
    decreases i,
{
    if k < i - 1 {
        lemma_last_index_at(s, i - 1, c, k);
    }
}

/// The containing directory of `path`: everything before the last slash,
/// or the empty string where there is none.
pub open spec fn spec_parent(path: Seq<char>) -> Seq<char> {
    let k = last_index_before(path, path.len() as int, '/');
    if k < 0 {
        Seq::<char>::empty()
    } else {
        path.subrange(0, k)
    }
}

/// The file name of `path`: everything after the last slash.
pub open spec fn spec_file_name(path: Seq<char>) -> Seq<char> {
    let k = last_index_before(path, path.len() as int, '/');
    path.subrange(k + 1, path.len() as int)
}

/// The stem of a file name: everything before the last dot, unless the
/// dot opens the name.
pub open spec fn spec_stem(name: Seq<char>) -> Seq<char> {
    let d = last_index_before(name, name.len() as int, '.');
    if d <= 0 {
        name
    } else {
        name.subrange(0, d)
    }
}

/// The last position of `c` in `chars`, as an executable scan.
fn rscan_char(chars: &Vec<char>, c: char) -> (r: Option<usize>)
    ensures
        match r {
            Some(k) => last_index_before(chars@, chars@.len() as int, c) == k as int,
            None => last_index_before(chars@, chars@.len() as int, c) == -1,
        },
{
    let mut i: usize = chars.len();
    while i > 0
        invariant
            i <= chars@.len(),
            forall|j: int| i <= j < chars@.len() ==> chars@[j] != c,
        decreases i,
    {
        i = i - 1;
        if chars[i] == c {
            proof {
                lemma_last_index_at(chars@, chars@.len() as int, c, i as int);
            }
            return Some(i);
        }
    }
    proof {
        lemma_last_index_at(chars@, chars@.len() as int, c, -1);
    }
    None
}

/// The containing directory of `path` (empty where `path` has no slash).
pub fn parent_of(path: &str) -> (r: String)
    ensures
        r@ == spec_parent(path@),
{
    let chars = str_to_chars(path);
    proof {
        lemma_last_index_before_bounds(chars@, chars@.len() as int, '/');
    }
    match rscan_char(&chars, '/') {
        Some(k) => {
            let mut out: Vec<char> = Vec::new();
            let mut i: usize = 0;
            while i < k
                invariant
                    i <= k <= chars@.len(),
                    out@ == chars@.subrange(0, i as int),
                decreases k - i,
            {
                out.push(chars[i]);
                i = i + 1;
                proof {
                    assert(out@ =~= chars@.subrange(0, i as int));
                }
            }
            chars_to_string(&out)
        },
        None => {
            let out: Vec<char> = Vec::new();
            proof {
                assert(out@ =~= spec_parent(path@));
            }
            chars_to_string(&out)
        },
    }
}

/// The file name of `path`: everything after its last slash.
pub fn file_name_of(path: &str) -> (r: String)
    ensures
        r@ == spec_file_name(path@),
{
    let chars = str_to_chars(path);
    proof {
        lemma_last_index_before_bounds(chars@, chars@.len() as int, '/');
    }
    let n = chars.len();
    let start: usize = match rscan_char(&chars, '/') {
        Some(k) => k + 1,
        None => 0,
    };
    let mut out: Vec<char> = Vec::new();
    let mut i: usize = start;
    while i < n
        invariant
            start <= i <= n,
            n == chars@.len(),
            out@ == chars@.subrange(start as int, i as int),
        decreases n - i,
    {
        out.push(chars[i]);
        i = i + 1;
        proof {
            assert(out@ =~= chars@.subrange(start as int, i as int));
        }
    }
    proof {
        assert(out@ =~= spec_file_name(path@));
    }
    chars_to_string(&out)
}

/// The stem of a file name: everything before its last dot, unless that
/// dot opens the name.
pub fn stem_of(name: &str) -> (r: String)
    ensures
        r@ == spec_stem(name@),
{
    let chars = str_to_chars(name);
    proof {
        lemma_last_index_before_bounds(chars@, chars@.len() as int, '.');
    }
    match rscan_char(&chars, '.') {
        Some(k) if k > 0 => {
            let mut out: Vec<char> = Vec::new();
            let mut i: usize = 0;
            while i < k
                invariant
                    i <= k <= chars@.len(),
                    out@ == chars@.subrange(0, i as int),
                decreases k - i,
            {
                out.push(chars[i]);
                i = i + 1;
                proof {
                    assert(out@ =~= chars@.subrange(0, i as int));
                }
            }
            chars_to_string(&out)
        },
        _ => {
            let mut out: Vec<char> = Vec::new();
            let mut i: usize = 0;
            let n = chars.len();
            while i < n
                invariant
                    i <= n,
                    n == chars@.len(),
                    out@ == chars@.subrange(0, i as int),
                decreases n - i,
            {
                out.push(chars[i]);
                i = i + 1;
                proof {
                    assert(out@ =~= chars@.subrange(0, i as int));
                }
            }
            proof {
                assert(chars@.subrange(0, n as int) =~= chars@);
            }
            chars_to_string(&out)
        },
    }
}

/// A segment with one surrounding quote character stripped from each
/// side, where present.
pub open spec fn strip_quotes(s: Seq<char>) -> Seq<char> {
    let a = if s.len() >= 1 && s[0] == '"' {
        s.drop_first()
    } else {
        s
    };
    if a.len() >= 1 && a.last() == '"' {
        a.drop_last()
    } else {
        a
    }
}

/// Strips one surrounding quote character from each side of a segment.
pub fn strip_quotes_exec(s: &str) -> (r: String)
    ensures
        r@ == strip_quotes(s@),
{
    let chars = str_to_chars(s);
    let n = chars.len();
    let start: usize = if n >= 1 && chars[0] == '"' {
        1
    } else {
        0
    };
    let end: usize = if n >= 1 && start < n && chars[n - 1] == '"' {
        n - 1
    } else {
        n
    };
    let mut out: Vec<char> = Vec::new();
    let mut i: usize = start;
    while i < end
        invariant
            start <= i <= end <= chars@.len(),
            out@ == chars@.subrange(start as int, i as int),
        decreases end - i,
    {
        out.push(chars[i]);
        i = i + 1;
        proof {
            assert(out@ =~= chars@.subrange(start as int, i as int));
        }
    }
    proof {
        assert(out@ =~= strip_quotes(s@));
    }
    chars_to_string(&out)
}

/// Normalizes the split segments from position `i` on, against the
/// accumulated prefix: `..` removes the preceding segment, empty and `.`
/// segments vanish, and every other segment is quote-stripped and
/// percent-decoded; a segment whose decoding is not valid UTF-8 fails the
/// whole path.
pub open spec fn norm_segments(segs: Seq<Seq<char>>, i: int, acc: Seq<Seq<char>>) -> Option<
    Seq<Seq<char>>,
>
    decreases segs.len() - i when 0 <= i <= segs.len()
{
    if i >= segs.len() {
        Some(acc)
    } else {
        let s0 = segs[i];
        if s0 == ".."@ {
            norm_segments(
                segs,
                i + 1,
                if acc.len() > 0 {
                    acc.drop_last()
                } else {
                    acc
                },
            )
        } else if s0.len() == 0 || s0 == "."@ {
            norm_segments(segs, i + 1, acc)
        } else {
            match pct_decoded(strip_quotes(s0)) {
                Some(d) => norm_segments(segs, i + 1, acc.push(d)),
                None => None,
            }
        }
    }
}

/// The normalized form of a path, or `None` where a segment fails to
/// decode.
pub open spec fn spec_reconcile(path: Seq<char>) -> Option<Seq<char>> {
    match norm_segments(spec_split_slash(path), 0, Seq::<Seq<char>>::empty()) {
        Some(segs) => Some(join_slash(segs)),
        None => None,
    }
}

/// Normalizes a path: quote characters around each segment are stripped,
/// each segment is percent-decoded, and `..` removes the segment before
/// it. `None` means a segment's decoding was not valid UTF-8.
pub fn reconcile_path(path: &str) -> (r: Option<String>)
    ensures
        match r {
            Some(p) => spec_reconcile(path@) == Some(p@),
            None => spec_reconcile(path@) is None,
        },
{
    let segs = split_slash(path);
    let ghost sv = segs.deep_view();
    let mut acc: Vec<String> = Vec::new();
    let mut i: usize = 0;
    let n = segs.len();
    proof {
        assert(sv.len() == segs@.len());
        assert(acc.deep_view() =~= Seq::<Seq<char>>::empty());
    }
    while i < n
        invariant
            n == segs@.len(),
            sv == segs.deep_view(),
            sv.len() == n,
            sv == spec_split_slash(path@),
            i <= n,
            norm_segments(sv, 0, Seq::<Seq<char>>::empty()) == norm_segments(
                sv,
                i as int,
                acc.deep_view(),
            ),
        decreases n - i,
    {
        proof {
            assert(sv[i as int] == segs@[i as int]@);
            reveal_strlit("");
        }
        let seg = &segs[i];
        let ghost pre = acc.deep_view();
        if str_eq(seg.as_str(), "..") {
            if acc.len() > 0 {
                acc.pop();
                proof {
                    assert(acc.deep_view() =~= pre.drop_last());
                }
            }
            i = i + 1;
        } else if str_eq(seg.as_str(), "") || str_eq(seg.as_str(), ".") {
            i = i + 1;
        } else {
            proof {
                if sv[i as int].len() == 0 {
                    assert(sv[i as int] =~= ""@);
                }
            }
            let stripped = strip_quotes_exec(seg.as_str());
            match percent_decode(stripped.as_str()) {
                Some(d) => {
                    let ghost dv = d@;
                    acc.push(d);
                    i = i + 1;
                    proof {
                        assert(acc.deep_view() =~= pre.push(dv));
                        assert(pct_decoded(strip_quotes(sv[i - 1])) == Some(dv));
                    }
                },
                None => {
                    return None;
                },
            }
        }
    }
    Some(join_segments(&acc))
}

/// `rel` resolved against `base`: an absolute `rel` stands alone, an
/// empty `base` contributes nothing, and otherwise the two are joined
/// with a slash.
pub open spec fn spec_join_rel(base: Seq<char>, rel: Seq<char>) -> Seq<char> {
    if rel.len() > 0 && rel[0] == '/' {
        rel
    } else if base.len() == 0 {
        rel
    } else {
        base + seq!['/'] + rel
    }
}

/// The glob pattern that discovers the run's documents: a path that
/// already names a markdown file stands alone; a directory (one trailing
/// slash dropped) is searched recursively.
pub open spec fn spec_md_glob(dir: Seq<char>) -> Seq<char> {
    if crate::text::is_suffix_of(".md"@, dir) {
        dir
    } else {
        let base = if dir.len() >= 1 && dir.last() == '/' {
            dir.drop_last()
        } else {
            dir
        };
        base + "/**/*.md"@
    }
}

/// The markdown discovery pattern for a source directory or file.
pub fn get_md_glob_pattern(dir: String) -> (r: String)
    ensures
        r@ == spec_md_glob(dir@),
{
    if crate::text::ends_with_str(dir.as_str(), ".md") {
        return dir;
    }
    let chars = str_to_chars(dir.as_str());
    let n = chars.len();
    let end: usize = if n >= 1 && chars[n - 1] == '/' {
        n - 1
    } else {
        n
    };
    let mut out: Vec<char> = Vec::new();
    let mut i: usize = 0;
    while i < end
        invariant
            i <= end <= chars@.len(),
            out@ == chars@.subrange(0, i as int),
        decreases end - i,
    {
        out.push(chars[i]);
        i = i + 1;
        proof {
            assert(out@ =~= chars@.subrange(0, i as int));
        }
    }
    let base = chars_to_string(&out);
    let r = base.concat("/**/*.md");
    proof {
        if dir@.len() >= 1 && dir@.last() == '/' {
            assert(chars@.subrange(0, end as int) =~= dir@.drop_last());
        } else {
            assert(chars@.subrange(0, end as int) =~= dir@);
        }
    }
    r
}

/// Joins a relative reference onto a base directory.
pub fn join_rel(base: &str, rel: &str) -> (r: String)
    ensures
        r@ == spec_join_rel(base@, rel@),
{
    let nr = rel.unicode_len();
    if nr > 0 && rel.get_char(0) == '/' {
        return String::from_str(rel);
    }
    if base.unicode_len() == 0 {
        return String::from_str(rel);
    }
    let joined = String::from_str(base).concat("/").concat(rel);
    proof {
        reveal_strlit("/");
        assert(joined@ =~= base@ + seq!['/'] + rel@);
    }
    joined
}

// ---------------------------------------------------------------------------
// The Path-to-Identifier Map.
// ---------------------------------------------------------------------------

/// Whether an entry sequence has pairwise distinct keys.
pub open spec fn entries_wf(s: Seq<(Seq<char>, Seq<char>)>) -> bool {
    forall|i: int, j: int| 0 <= i < j < s.len() ==> (#[trigger] s[i]).0 != (#[trigger] s[j]).0
}

/// The mapping an entry sequence denotes (later entries win, though a
/// well-formed sequence never repeats a key).
pub open spec fn entries_map(s: Seq<(Seq<char>, Seq<char>)>) -> Map<Seq<char>, Seq<char>>
    decreases s.len(),
{
    if s.len() == 0 {
        Map::<Seq<char>, Seq<char>>::empty()
    } else {
        entries_map(s.drop_last()).insert(s.last().0, s.last().1)
    }
}

/// A key is in the denoted map exactly where some entry holds it.
pub proof fn lemma_entries_map_contains(s: Seq<(Seq<char>, Seq<char>)>, k: Seq<char>)
    ensures
        entries_map(s).contains_key(k) <==> exists|i: int| 0 <= i < s.len() && (#[trigger] s[i]).0
            == k,
    decreases s.len(),
{
    if s.len() > 0 {
        lemma_entries_map_contains(s.drop_last(), k);
        if s.last().0 == k {
            assert((s[s.len() - 1]).0 == k);
        } else if entries_map(s).contains_key(k) {
            let i = choose|i: int| 0 <= i < s.drop_last().len() && (#[trigger] s.drop_last()[i]).0
                == k;
            assert((s[i]).0 == k);
        } else {
            assert forall|i: int| 0 <= i < s.len() implies (#[trigger] s[i]).0 != k by {
                if i < s.len() - 1 {
                    assert(s.drop_last()[i] == s[i]);
                }
            }
        }
    }
}

/// In a well-formed entry sequence, each entry's key maps to its value.
pub proof fn lemma_entries_map_at(s: Seq<(Seq<char>, Seq<char>)>, i: int)
    requires
        entries_wf(s),
        0 <= i < s.len(),
    ensures
        entries_map(s).contains_key(s[i].0),
        entries_map(s)[s[i].0] == s[i].1,
    decreases s.len(),
{
    if i == s.len() - 1 {
    } else {
        assert(entries_wf(s.drop_last()));
        assert(s.drop_last()[i] == s[i]);
        lemma_entries_map_at(s.drop_last(), i);
        assert(s[i].0 != s.last().0);
    }
}

/// Appending a fresh entry denotes one more mapping.
pub proof fn lemma_entries_map_push(s: Seq<(Seq<char>, Seq<char>)>, p: (Seq<char>, Seq<char>))
    ensures
        entries_map(s.push(p)) == entries_map(s).insert(p.0, p.1),
{
    assert(s.push(p).drop_last() =~= s);
    assert(s.push(p).last() == p);
}

/// Updating the entry that holds a key denotes the same map as inserting
/// the new value.
pub proof fn lemma_entries_map_update(
    s: Seq<(Seq<char>, Seq<char>)>,
    i: int,
    v: Seq<char>,
)
    requires
        entries_wf(s),
        0 <= i < s.len(),
    ensures
        entries_map(s.update(i, (s[i].0, v))) == entries_map(s).insert(s[i].0, v),
    decreases s.len(),
{
    let s2 = s.update(i, (s[i].0, v));
    assert(entries_map(s2) =~= entries_map(s).insert(s[i].0, v)) by {
        lemma_entries_map_update_ext(s, i, v);
    }
}

proof fn lemma_entries_map_update_ext(
    s: Seq<(Seq<char>, Seq<char>)>,
    i: int,
    v: Seq<char>,
)
    requires
        entries_wf(s),
        0 <= i < s.len(),
    ensures
        entries_map(s.update(i, (s[i].0, v))) =~= entries_map(s).insert(s[i].0, v),
    decreases s.len(),
{
    let s2 = s.update(i, (s[i].0, v));
    if i == s.len() - 1 {
        assert(s2.drop_last() =~= s.drop_last());
        assert(entries_map(s2) == entries_map(s.drop_last()).insert(s[i].0, v));
        assert(entries_map(s) == entries_map(s.drop_last()).insert(s[i].0, s[i].1));
        assert(entries_map(s.drop_last()).insert(s[i].0, s[i].1).insert(s[i].0, v)
            =~= entries_map(s.drop_last()).insert(s[i].0, v));
    } else {
        assert(entries_wf(s.drop_last()));
        assert(s.drop_last()[i] == s[i]);
        lemma_entries_map_update_ext(s.drop_last(), i, v);
        assert(s2.drop_last() =~= s.drop_last().update(i, (s[i].0, v)));
        assert(s2.last() == s.last());
        assert(s[i].0 != s.last().0);
        assert(entries_map(s2) == entries_map(s.drop_last().update(i, (s[i].0, v))).insert(
            s.last().0,
            s.last().1,
        ));
        assert(entries_map(s.drop_last()).insert(s[i].0, v).insert(s.last().0, s.last().1)
            =~= entries_map(s.drop_last()).insert(s.last().0, s.last().1).insert(s[i].0, v));
    }
}

/// Inserting under distinct keys commutes: this is what makes the first
/// phase's map independent of the order the documents are visited in.
pub proof fn lemma_insert_commutes(
    m: Map<Seq<char>, Seq<char>>,
    k1: Seq<char>,
    v1: Seq<char>,
    k2: Seq<char>,
    v2: Seq<char>,
)
    requires
        k1 != k2,
    ensures
        m.insert(k1, v1).insert(k2, v2) == m.insert(k2, v2).insert(k1, v1),
{
    assert(m.insert(k1, v1).insert(k2, v2) =~= m.insert(k2, v2).insert(k1, v1));
}

/// The run's Path-to-Identifier Map: a mapping from a normalized source
/// path to a destination page identifier, built during the first phase
/// and read-only afterwards. Keys are never repeated, and entries keep
/// their insertion order.
pub struct PathIdMap {
    entries: Vec<(String, String)>,
}

impl View for PathIdMap {
    type V = Seq<(Seq<char>, Seq<char>)>;

    closed spec fn view(&self) -> Seq<(Seq<char>, Seq<char>)> {
        self.entries.deep_view()
    }
}

impl PathIdMap {
    /// The mapping this structure denotes.
    pub open spec fn as_map(&self) -> Map<Seq<char>, Seq<char>> {
        entries_map(self@)
    }

    /// The structural invariant: keys are pairwise distinct.
    pub open spec fn wf(&self) -> bool {
        entries_wf(self@)
    }

    /// An empty map.
    pub fn new() -> (r: Self)
        ensures
            r@ == Seq::<(Seq<char>, Seq<char>)>::empty(),
            r.wf(),
            r.as_map() == Map::<Seq<char>, Seq<char>>::empty(),
    {
        let r = PathIdMap { entries: Vec::new() };
        proof {
            assert(r@ =~= Seq::<(Seq<char>, Seq<char>)>::empty());
        }
        r
    }

    /// How many paths have been recorded.
    pub fn len(&self) -> (r: usize)
        ensures
            r == self@.len(),
    {
        self.entries.len()
    }

    /// The key of the `i`-th entry, in insertion order.
    pub fn key_at(&self, i: usize) -> (r: &String)
        requires
            i < self@.len(),
        ensures
            r@ == self@[i as int].0,
    {
        proof {
            assert(self@[i as int] == self.entries@[i as int].deep_view());
        }
        &self.entries[i].0
    }

    /// The identifier of the `i`-th entry, in insertion order.
    pub fn value_at(&self, i: usize) -> (r: &String)
        requires
            i < self@.len(),
        ensures
            r@ == self@[i as int].1,
    {
        proof {
            assert(self@[i as int] == self.entries@[i as int].deep_view());
        }
        &self.entries[i].1
    }

    /// Looks a path up; `None` exactly where the path was never recorded.
    pub fn get(&self, key: &str) -> (r: Option<&String>)
        requires
            self.wf(),
        ensures
            match r {
                Some(v) => self.as_map().contains_key(key@) && v@ == self.as_map()[key@],
                None => !self.as_map().contains_key(key@),
            },
    {
        let n = self.entries.len();
        let mut i: usize = 0;
        while i < n
            invariant
                self.wf(),
                n == self@.len(),
                i <= n,
                forall|j: int| 0 <= j < i ==> (#[trigger] self@[j]).0 != key@,
            decreases n - i,
        {
            proof {
                assert(self@[i as int] == self.entries@[i as int].deep_view());
            }
            if str_eq(self.entries[i].0.as_str(), key) {
                proof {
                    lemma_entries_map_at(self@, i as int);
                }
                return Some(&self.entries[i].1);
            }
            i = i + 1;
        }
        proof {
            lemma_entries_map_contains(self@, key@);
        }
        None
    }

    /// Whether a path was recorded.
    pub fn contains(&self, key: &str) -> (r: bool)
        requires
            self.wf(),
        ensures
            r == self.as_map().contains_key(key@),
    {
        match self.get(key) {
            Some(_) => true,
            None => false,
        }
    }

    /// Records a path: a fresh path is appended, keeping insertion order;
    /// a path already present has its identifier replaced in place.
    pub fn insert(&mut self, key: String, value: String)
        requires
            old(self).wf(),
        ensures
            final(self).wf(),
            final(self).as_map() == old(self).as_map().insert(key@, value@),
            !old(self).as_map().contains_key(key@) ==> final(self)@ == old(self)@.push(
                (key@, value@),
            ),
            old(self).as_map().contains_key(key@) ==> final(self)@.len() == old(self)@.len(),
    {
        let ghost pre = self@;
        let n = self.entries.len();
        let mut i: usize = 0;
        while i < n
            invariant
                self.wf(),
                self@ == pre,
                pre == old(self)@,
                n == self@.len(),
                i <= n,
                forall|j: int| 0 <= j < i ==> (#[trigger] self@[j]).0 != key@,
            decreases n - i,
        {
            proof {
                assert(self@[i as int] == self.entries@[i as int].deep_view());
            }
            if str_eq(self.entries[i].0.as_str(), key.as_str()) {
                let ghost keyv = key@;
                let ghost valv = value@;
                proof {
                    assert(pre[i as int].0 == keyv);
                    assert(exists|j: int| 0 <= j < pre.len() && (#[trigger] pre[j]).0 == keyv);
                    lemma_entries_map_contains(pre, keyv);
                    lemma_entries_map_update(pre, i as int, valv);
                }
                self.entries.set(i, (key, value));
                proof {
                    assert forall|j: int| 0 <= j < pre.len() implies self@[j] == pre.update(
                        i as int,
                        (keyv, valv),
                    )[j] by {
                        assert(self@[j] == self.entries@[j].deep_view());
                    }
                    assert(self@ =~= pre.update(i as int, (keyv, valv)));
                    assert(pre.update(i as int, (keyv, valv)) =~= pre.update(
                        i as int,
                        (pre[i as int].0, valv),
                    ));
                    assert(entries_wf(self@)) by {
                        assert forall|x: int, y: int|
                            0 <= x < y < self@.len() implies (#[trigger] self@[x]).0 != (
                        #[trigger] self@[y]).0 by {
                            assert(self@[x].0 == pre[x].0);
                            assert(self@[y].0 == pre[y].0);
                        }
                    }
                    assert(self.as_map() == entries_map(
                        pre.update(i as int, (pre[i as int].0, valv)),
                    ));
                    assert(entries_map(pre.update(i as int, (pre[i as int].0, valv)))
                        == entries_map(pre).insert(pre[i as int].0, valv));
                    assert(entries_map(pre) == old(self).as_map());
                    assert(pre[i as int].0 == keyv);
                    assert(self.as_map() == old(self).as_map().insert(keyv, valv));
                    assert(old(self).as_map().contains_key(keyv));
                }
                return ;
            }
            i = i + 1;
        }
        proof {
            lemma_entries_map_contains(pre, key@);
            lemma_entries_map_push(pre, (key@, value@));
        }
        self.entries.push((key, value));
        proof {
            assert(self@ =~= pre.push((key@, value@)));
            assert(entries_wf(self@));
        }
    }
}

} // verus!
