//! The metadata directive line of a document is tokenized shell-style
//! (double-quoted segments keep their embedded spaces) and parsed against
//! a fixed schema: an optional `--title <string>` (or `-t`) and an
//! optional `--emoji <string>` (or `-e`).

use vstd::prelude::*;

use crate::external::chars_to_string;
use crate::text::{is_space, is_space_char, str_eq, str_to_chars};

verus! {

/// Index of the first `"` at or after `i`, or the length of `s`.
pub open spec fn find_quote(s: Seq<char>, i: int) -> int
    decreases s.len() - i when 0 <= i <= s.len()
{
    if i >= s.len() {
        s.len() as int
    } else if s[i] == '"' {
        i
    } else {
        find_quote(s, i + 1)
    }
}

pub proof fn lemma_find_quote_bounds(s: Seq<char>, i: int)
    requires
        0 <= i <= s.len(),
    ensures
        i <= find_quote(s, i) <= s.len(),
    decreases s.len() - i,
{
    if i < s.len() && s[i] != '"' {
        lemma_find_quote_bounds(s, i + 1);
    }
}

/// Index of the first whitespace character at or after `i`, or the length
/// of `s`.
pub open spec fn find_space(s: Seq<char>, i: int) -> int
    decreases s.len() - i when 0 <= i <= s.len()
{
    if i >= s.len() {
        s.len() as int
    } else if is_space_char(s[i]) {
        i
    } else {
        find_space(s, i + 1)
    }
}

pub proof fn lemma_find_space_bounds(s: Seq<char>, i: int)
    requires
        0 <= i <= s.len(),
    ensures
        i <= find_space(s, i) <= s.len(),
    decreases s.len() - i,
{
    if i < s.len() && !is_space_char(s[i]) {
        lemma_find_space_bounds(s, i + 1);
    }
}

/// The tokens of `s` from position `i` on: whitespace separates tokens, a
/// double quote opens a token that runs to the next double quote (or the
/// end) and may be empty, and any other character opens a token that runs
/// to the next whitespace.
pub open spec fn split_args_from(s: Seq<char>, i: int) -> Seq<Seq<char>>
    decreases s.len() - i when 0 <= i <= s.len()
    via split_args_from_decreases
{
    if i >= s.len() {
        Seq::<Seq<char>>::empty()
    } else if is_space_char(s[i]) {
        split_args_from(s, i + 1)
    } else if s[i] == '"' {
        let e = find_quote(s, i + 1);
        let rest = if e < s.len() {
            e + 1
        } else {
            e
        };
        seq![s.subrange(i + 1, e)] + split_args_from(s, rest)
    } else {
        let e = find_space(s, i);
        seq![s.subrange(i, e)] + split_args_from(s, e)
    }
}

#[via_fn]
proof fn split_args_from_decreases(s: Seq<char>, i: int) {
    if 0 <= i < s.len() && !is_space_char(s[i]) {
        if s[i] == '"' {
            lemma_find_quote_bounds(s, i + 1);
        } else {
            lemma_find_space_bounds(s, i + 1);
        }
    }
}

/// The shell-style tokenization of the whole of `s`.
pub open spec fn spec_split_args(s: Seq<char>) -> Seq<Seq<char>> {
    split_args_from(s, 0)
}

/// Reads one double-quoted token: enters at the opening quote, consumes
/// through the closing quote (or to the end), and returns the characters
/// between them.
pub fn parse_quoted_string(chars: &Vec<char>, i: &mut usize) -> (r: String)
    requires
        *old(i) < chars@.len(),
        chars@[*old(i) as int] == '"',
    ensures
        *final(i) > *old(i),
        *final(i) <= chars@.len(),
        r@ == chars@.subrange(*old(i) + 1, find_quote(chars@, *old(i) + 1)),
        *final(i) == if find_quote(chars@, *old(i) + 1) < chars@.len() {
            find_quote(chars@, *old(i) + 1) + 1
        } else {
            find_quote(chars@, *old(i) + 1)
        },
{
    let ghost s = chars@;
    let ghost start: int = *i + 1int;
    let n = chars.len();
    let mut j: usize = *i;
    j = j + 1;
    let mut out: Vec<char> = Vec::new();
    proof {
        lemma_find_quote_bounds(s, start);
        assert(out@ =~= s.subrange(start, j as int));
    }
    while j < n && chars[j] != '"'
        invariant
            0 <= start <= j <= s.len(),
            n == s.len(),
            chars@ == s,
            find_quote(s, start) == find_quote(s, j as int),
            out@ == s.subrange(start, j as int),
        decreases s.len() - j,
    {
        out.push(chars[j]);
        j = j + 1;
        proof {
            assert(out@ =~= s.subrange(start, j as int));
            lemma_find_quote_bounds(s, j as int);
        }
    }
    proof {
        assert(find_quote(s, j as int) == j);
    }
    if j < n {
        // consume the closing quote
        *i = j + 1;
    } else {
        *i = j;
    }
    chars_to_string(&out)
}

/// Reads one unquoted token: consumes up to (not including) the next
/// whitespace character, and returns what it read.
pub fn parse_unquoted_string(chars: &Vec<char>, i: &mut usize) -> (r: String)
    requires
        *old(i) < chars@.len(),
        !is_space_char(chars@[*old(i) as int]),
    ensures
        *final(i) > *old(i),
        *final(i) <= chars@.len(),
        *final(i) == find_space(chars@, *old(i) as int),
        r@ == chars@.subrange(*old(i) as int, *final(i) as int),
{
    let ghost s = chars@;
    let ghost start: int = *i as int;
    let n = chars.len();
    let mut j: usize = *i;
    let mut out: Vec<char> = Vec::new();
    proof {
        assert(out@ =~= s.subrange(start, j as int));
    }
    while j < n && !is_space(chars[j])
        invariant
            0 <= start <= j <= s.len(),
            n == s.len(),
            chars@ == s,
            find_space(s, start) == find_space(s, j as int),
            out@ == s.subrange(start, j as int),
        decreases s.len() - j,
    {
        out.push(chars[j]);
        j = j + 1;
        proof {
            assert(out@ =~= s.subrange(start, j as int));
        }
    }
    proof {
        assert(find_space(s, j as int) == j);
    }
    *i = j;
    chars_to_string(&out)
}

/// Splits a directive string into its tokens, shell-style.
pub fn split_args(input: &str) -> (r: Vec<String>)
    ensures
        r.deep_view() == spec_split_args(input@),
{
    let chars = str_to_chars(input);
    let ghost s = input@;
    let n = chars.len();
    let mut args: Vec<String> = Vec::new();
    let mut i: usize = 0;
    while i < n
        invariant
            chars@ == s,
            n == s.len(),
            i <= n,
            spec_split_args(s) == args.deep_view() + split_args_from(s, i as int),
        decreases n - i,
    {
        let c = chars[i];
        if is_space(c) {
            i = i + 1;
        } else if c == '"' {
            let t = parse_quoted_string(&chars, &mut i);
            args.push(t);
            proof {
                assert(args.deep_view() =~= args.deep_view().drop_last() + seq![t@]);
                assert(spec_split_args(s) == args.deep_view() + split_args_from(s, i as int));
            }
        } else {
            let t = parse_unquoted_string(&chars, &mut i);
            args.push(t);
            proof {
                assert(args.deep_view() =~= args.deep_view().drop_last() + seq![t@]);
                assert(spec_split_args(s) == args.deep_view() + split_args_from(s, i as int));
            }
        }
    }
    proof {
        assert(args.deep_view() =~= args.deep_view() + split_args_from(s, i as int));
    }
    args
}

/// A document's metadata overrides, read from its directive line.
#[derive(Debug)]
pub struct NotationDocArguments {
    pub emoji: Option<String>,
    pub title: Option<String>,
}

impl Clone for NotationDocArguments {
    fn clone(&self) -> (r: Self)
        ensures
            r@ == self@,
    {
        NotationDocArguments {
            emoji: match &self.emoji {
                Some(e) => Some(e.clone()),
                None => None,
            },
            title: match &self.title {
                Some(t) => Some(t.clone()),
                None => None,
            },
        }
    }
}

/// The mathematical content of `NotationDocArguments`.
pub struct DocArgsV {
    pub emoji: Option<Seq<char>>,
    pub title: Option<Seq<char>>,
}

impl View for NotationDocArguments {
    type V = DocArgsV;

    open spec fn view(&self) -> DocArgsV {
        DocArgsV { emoji: self.emoji.deep_view(), title: self.title.deep_view() }
    }
}

impl Default for NotationDocArguments {
    /// No overrides at all.
    fn default() -> (r: Self)
        ensures
            r@.emoji is None,
            r@.title is None,
    {
        NotationDocArguments { emoji: None, title: None }
    }
}

/// Parses the token list against the fixed schema, two tokens at a time:
/// an option name (`--emoji`/`-e` or `--title`/`-t`) followed by its
/// value. Any other token, a missing value, or a repeated option is a
/// parse failure (`None`).
pub open spec fn parse_args_from(toks: Seq<Seq<char>>, i: int, acc: DocArgsV) -> Option<DocArgsV>
    decreases toks.len() - i when 0 <= i <= toks.len()
{
    if i >= toks.len() {
        Some(acc)
    } else if toks[i] == "--emoji"@ || toks[i] == "-e"@ {
        if i + 1 >= toks.len() || acc.emoji is Some {
            None
        } else {
            parse_args_from(toks, i + 2, DocArgsV { emoji: Some(toks[i + 1]), title: acc.title })
        }
    } else if toks[i] == "--title"@ || toks[i] == "-t"@ {
        if i + 1 >= toks.len() || acc.title is Some {
            None
        } else {
            parse_args_from(toks, i + 2, DocArgsV { emoji: acc.emoji, title: Some(toks[i + 1]) })
        }
    } else {
        None
    }
}

/// The parse of a whole directive token list: empty yields no overrides.
pub open spec fn spec_parse_doc_args(toks: Seq<Seq<char>>) -> Option<DocArgsV> {
    parse_args_from(toks, 0, DocArgsV { emoji: None, title: None })
}

/// Parses directive tokens against the fixed schema; `None` means the
/// directive is unparseable (the caller turns that into an error naming
/// the document).
pub fn parse_doc_args(tokens: &Vec<String>) -> (r: Option<NotationDocArguments>)
    ensures
        match r {
            Some(a) => spec_parse_doc_args(tokens.deep_view()) == Some(a@),
            None => spec_parse_doc_args(tokens.deep_view()) is None,
        },
{
    let ghost toks = tokens.deep_view();
    let mut acc = NotationDocArguments { emoji: None, title: None };
    let mut i: usize = 0;
    proof {
        assert(toks.len() == tokens@.len());
    }
    while i < tokens.len()
        invariant
            i <= tokens@.len(),
            toks == tokens.deep_view(),
            toks.len() == tokens@.len(),
            spec_parse_doc_args(toks) == parse_args_from(toks, i as int, acc@),
        decreases tokens@.len() - i,
    {
        proof {
            assert(toks[i as int] == tokens@[i as int]@);
        }
        let tok = &tokens[i];
        if str_eq(tok.as_str(), "--emoji") || str_eq(tok.as_str(), "-e") {
            if i + 1 >= tokens.len() || acc.emoji.is_some() {
                return None;
            }
            proof {
                assert(toks[i + 1] == tokens@[i + 1]@);
            }
            acc = NotationDocArguments { emoji: Some(tokens[i + 1].clone()), title: acc.title };
            i = i + 2;
        } else if str_eq(tok.as_str(), "--title") || str_eq(tok.as_str(), "-t") {
            if i + 1 >= tokens.len() || acc.title.is_some() {
                return None;
            }
            proof {
                assert(toks[i + 1] == tokens@[i + 1]@);
            }
            acc = NotationDocArguments { emoji: acc.emoji, title: Some(tokens[i + 1].clone()) };
            i = i + 2;
        } else {
            return None;
        }
    }
    Some(acc)
}

} // verus!
