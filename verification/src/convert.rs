//! The Block Converter: a depth-first walk of a document's syntax tree
//! that produces the destination's Block Request, resolving links against
//! the run's Path-to-Identifier Map, collapsing newlines, clamping
//! heading depths, and chunking code to the destination's span ceiling.
//! Any link or image resolution failure aborts the whole document's
//! conversion.

use vstd::prelude::*;

use crate::blocks::{
    child_bulleted_text, child_code, child_heading, child_image, child_numbered_text,
    child_paragraph, child_paragraph_text, child_rich_text, child_table, child_table_row,
    span_link, span_text, span_with_ann, ann_bold, ann_code, spec_rich_text_blocks,
    AppendBlockRequest, AppendBlockRequestChild, BlockType, ChildV, NotionBlock, SpanV,
    TextAnnotations,
};
use crate::errors::NotationError;
use crate::external::{url_ok, parse_url_ok};
use crate::pathmap::{spec_join_rel, spec_parent, spec_reconcile, join_rel, parent_of,
    reconcile_path, PathIdMap};
use crate::text::{
    all_space, find_char, is_all_space, has_dash_prefix, replace_nl, replace_newlines,
    starts_with_dashes, str_to_chars, take_until_char,
};

verus! {

/// The library's own markdown syntax tree, one variant per node kind the
/// converter distinguishes; anything else is `Other` and is skipped. A
/// text run remembers the source line it starts on, where the parser
/// knows it.
pub enum MdNode {
    Root { children: Vec<MdNode> },
    Heading { depth: u8, children: Vec<MdNode> },
    Paragraph { children: Vec<MdNode> },
    List { ordered: bool, children: Vec<MdNode> },
    ListItem { children: Vec<MdNode> },
    Text { value: String, line: Option<usize> },
    Link { url: String, children: Vec<MdNode> },
    Image { url: String },
    Strong { children: Vec<MdNode> },
    InlineCode { value: String },
    InlineMath { value: String },
    Code { lang: Option<String>, value: String },
    Table { children: Vec<MdNode> },
    TableRow { children: Vec<MdNode> },
    TableCell { children: Vec<MdNode> },
    Other,
}

/// The context one document is converted in: its source path, its own
/// destination page, the completed Path-to-Identifier Map, and the page
/// title used when composing link targets.
pub struct Ctx {
    pub file: Seq<char>,
    pub page_id: Seq<char>,
    pub map: Map<Seq<char>, Seq<char>>,
    pub title: Seq<char>,
}

/// A conversion failure, before it is enriched with the document path.
pub enum ConvErr {
    /// The URL is not well-formed.
    Validation { url: Seq<char> },
    /// A relative link's target was never discovered in the run.
    Unresolved { url: Seq<char> },
}

/// How an enriched error corresponds to a conversion failure: same kind,
/// same offending URL, and it names the document.
pub open spec fn err_matches(e: NotationError, ev: ConvErr, page: Seq<char>) -> bool {
    match ev {
        ConvErr::Validation { url } => (e matches NotationError::Validation { page: p, url: u }
            && p@ == page && u@ == url),
        ConvErr::Unresolved { url } => (e matches NotationError::UnresolvedLink {
            page: p,
            url: u,
        } && p@ == page && u@ == url),
    }
}

/// `s` with every `from` replaced by `to`.
pub open spec fn replace_char(s: Seq<char>, from: char, to: char) -> Seq<char> {
    s.map(
        |_i: int, c: char|
            if c == from {
                to
            } else {
                c
            },
    )
}

/// `s` with every `c` removed.
pub open spec fn remove_char(s: Seq<char>, c: char) -> Seq<char>
    decreases s.len(),
{
    if s.len() == 0 {
        Seq::<char>::empty()
    } else if s.last() == c {
        remove_char(s.drop_last(), c)
    } else {
        remove_char(s.drop_last(), c).push(s.last())
    }
}

/// The address of a page reached through a fragment-only link.
pub open spec fn own_page_url(page_id: Seq<char>) -> Seq<char> {
    "https://www.notion.so/"@ + page_id
}

/// The composed address of an internal link target: the page title with
/// spaces turned to dashes, then a dash, then the identifier with its
/// dashes removed.
pub open spec fn internal_url(title: Seq<char>, id: Seq<char>) -> Seq<char> {
    "https://www.notion.so/"@ + replace_char(title, ' ', '-') + seq!['-'] + remove_char(id, '-')
}

/// Link resolution: a `#` link resolves to the page's own address, a
/// relative link (leading `.`) drops any fragment, resolves against the
/// document's directory, normalizes, and must be in the map, and any
/// other link must itself be a well-formed absolute URL. Whatever the
/// source, the final address must parse as a URL.
pub open spec fn spec_resolve(url: Seq<char>, ctx: Ctx) -> Result<Seq<char>, ConvErr> {
    if url.len() >= 1 && url[0] == '#' {
        let u = own_page_url(ctx.page_id);
        if url_ok(u) {
            Ok(u)
        } else {
            Err(ConvErr::Validation { url })
        }
    } else if url.len() >= 1 && url[0] == '.' {
        let path_part = url.subrange(0, find_char(url, 0, '#'));
        let joined = spec_join_rel(spec_parent(ctx.file), path_part);
        match spec_reconcile(joined) {
            Option::None => Err(ConvErr::Validation { url }),
            Option::Some(p) => if ctx.map.contains_key(p) {
                let u = internal_url(ctx.title, ctx.map[p]);
                if url_ok(u) {
                    Ok(u)
                } else {
                    Err(ConvErr::Validation { url })
                }
            } else {
                Err(ConvErr::Unresolved { url })
            },
        }
    } else {
        if url_ok(url) {
            Ok(url)
        } else {
            Err(ConvErr::Validation { url })
        }
    }
}

/// `s` with spaces turned to dashes.
fn spaces_to_dashes(s: &str) -> (r: String)
    ensures
        r@ == replace_char(s@, ' ', '-'),
{
    let chars = str_to_chars(s);
    let mut out: Vec<char> = Vec::new();
    let mut i: usize = 0;
    let n = chars.len();
    while i < n
        invariant
            n == s@.len(),
            chars@ == s@,
            i <= n,
            out@ == replace_char(s@.subrange(0, i as int), ' ', '-'),
        decreases n - i,
    {
        if chars[i] == ' ' {
            out.push('-');
        } else {
            out.push(chars[i]);
        }
        i = i + 1;
        proof {
            assert(out@ =~= replace_char(s@.subrange(0, i as int), ' ', '-'));
        }
    }
    proof {
        assert(s@.subrange(0, n as int) =~= s@);
    }
    crate::external::chars_to_string(&out)
}

/// `s` with its dashes removed.
fn remove_dashes(s: &str) -> (r: String)
    ensures
        r@ == remove_char(s@, '-'),
{
    let chars = str_to_chars(s);
    let mut out: Vec<char> = Vec::new();
    let mut i: usize = 0;
    let n = chars.len();
    while i < n
        invariant
            n == s@.len(),
            chars@ == s@,
            i <= n,
            out@ == remove_char(s@.subrange(0, i as int), '-'),
        decreases n - i,
    {
        proof {
            assert(s@.subrange(0, i + 1).drop_last() =~= s@.subrange(0, i as int));
        }
        if chars[i] != '-' {
            out.push(chars[i]);
        }
        i = i + 1;
    }
    proof {
        assert(s@.subrange(0, n as int) =~= s@);
    }
    crate::external::chars_to_string(&out)
}

/// The destination's per-span ceiling on code content, in bytes.
pub const MAX_CODE_LENGTH: usize = 2000;

/// The number of bytes the UTF-8 encoding of `c` takes.
pub open spec fn utf8_len(c: char) -> int {
    if (c as u32) < 0x80 {
        1
    } else if (c as u32) < 0x800 {
        2
    } else if (c as u32) < 0x10000 {
        3
    } else {
        4
    }
}

/// The UTF-8 byte length of a character sequence.
pub open spec fn utf8_sum(s: Seq<char>) -> int
    decreases s.len(),
{
    if s.len() == 0 {
        0
    } else {
        utf8_sum(s.drop_last()) + utf8_len(s.last())
    }
}

/// The end of the chunk that starts at `i` with `used` bytes already
/// taken: characters are added whole until the next one would push the
/// chunk past the ceiling.
pub open spec fn chunk_end(s: Seq<char>, i: int, used: int) -> int
    decreases s.len() - i when 0 <= i <= s.len()
{
    if i >= s.len() {
        i
    } else if used + utf8_len(s[i]) > MAX_CODE_LENGTH as int {
        i
    } else {
        chunk_end(s, i + 1, used + utf8_len(s[i]))
    }
}

pub proof fn lemma_chunk_end_bounds(s: Seq<char>, i: int, used: int)
    requires
        0 <= i <= s.len(),
    ensures
        i <= chunk_end(s, i, used) <= s.len(),
    decreases s.len() - i,
{
    if i < s.len() && !(used + utf8_len(s[i]) > MAX_CODE_LENGTH as int) {
        lemma_chunk_end_bounds(s, i + 1, used + utf8_len(s[i]));
    }
}

/// A chunk that starts inside the text always takes at least one
/// character: a single character is never past the ceiling.
pub proof fn lemma_chunk_end_progress(s: Seq<char>, i: int)
    requires
        0 <= i < s.len(),
    ensures
        i + 1 <= chunk_end(s, i, 0) <= s.len(),
{
    lemma_chunk_end_bounds(s, i + 1, utf8_len(s[i]));
}

/// The chunks of `s` from `i` on: maximal runs of whole characters, each
/// within the byte ceiling.
pub open spec fn chunks_from(s: Seq<char>, i: int) -> Seq<Seq<char>>
    decreases s.len() - i when 0 <= i <= s.len()
    via chunks_from_decreases
{
    if i >= s.len() {
        Seq::<Seq<char>>::empty()
    } else {
        let e = chunk_end(s, i, 0);
        seq![s.subrange(i, e)] + chunks_from(s, e)
    }
}

#[via_fn]
proof fn chunks_from_decreases(s: Seq<char>, i: int) {
    if 0 <= i < s.len() {
        lemma_chunk_end_progress(s, i);
    }
}

/// The byte-boundary chunking of a whole code text.
pub open spec fn spec_chunks(s: Seq<char>) -> Seq<Seq<char>> {
    chunks_from(s, 0)
}

/// Walking a chunk keeps the byte count: the bytes already taken plus
/// the bytes of what the chunk still takes stay within the ceiling.
proof fn lemma_chunk_end_sum(s: Seq<char>, i: int, used: int)
    requires
        0 <= i <= s.len(),
        0 <= used <= MAX_CODE_LENGTH as int,
    ensures
        used + utf8_sum(s.subrange(i, chunk_end(s, i, used))) <= MAX_CODE_LENGTH as int,
    decreases s.len() - i,
{
    let e = chunk_end(s, i, used);
    if i >= s.len() || used + utf8_len(s[i]) > MAX_CODE_LENGTH as int {
        assert(s.subrange(i, i) =~= Seq::<char>::empty());
    } else {
        lemma_chunk_end_sum(s, i + 1, used + utf8_len(s[i]));
        lemma_chunk_end_bounds(s, i + 1, used + utf8_len(s[i]));
        lemma_utf8_sum_cons(s, i, e);
    }
}

/// Splitting the first character off a slice splits its byte count.
proof fn lemma_utf8_sum_cons(s: Seq<char>, i: int, e: int)
    requires
        0 <= i < e <= s.len(),
    ensures
        utf8_sum(s.subrange(i, e)) == utf8_len(s[i]) + utf8_sum(s.subrange(i + 1, e)),
    decreases e - i,
{
    if i + 1 == e {
        assert(s.subrange(i, e).drop_last() =~= s.subrange(i, i));
        assert(s.subrange(i, i) =~= Seq::<char>::empty());
        assert(s.subrange(i + 1, e) =~= Seq::<char>::empty());
    } else {
        lemma_utf8_sum_cons(s, i, e - 1);
        assert(s.subrange(i, e).drop_last() =~= s.subrange(i, e - 1));
        assert(s.subrange(i + 1, e).drop_last() =~= s.subrange(i + 1, e - 1));
        assert(utf8_sum(s.subrange(i, e)) == utf8_sum(s.subrange(i, e - 1)) + utf8_len(
            s[e - 1],
        ));
    }
}

/// Code chunking covers the text: the chunks concatenate back to exactly
/// the input, every chunk is non-empty, and every chunk's UTF-8 byte
/// length stays within the destination's ceiling — no character is ever
/// split across chunks.
pub proof fn lemma_chunks_cover(s: Seq<char>, i: int)
    requires
        0 <= i <= s.len(),
    ensures
        chunks_from(s, i).flatten() == s.subrange(i, s.len() as int),
        forall|k: int|
            0 <= k < chunks_from(s, i).len() ==> (#[trigger] chunks_from(s, i)[k]).len() > 0,
        forall|k: int|
            0 <= k < chunks_from(s, i).len() ==> utf8_sum(#[trigger] chunks_from(s, i)[k])
                <= MAX_CODE_LENGTH as int,
    decreases s.len() - i,
{
    if i >= s.len() {
        assert(chunks_from(s, i).flatten() =~= s.subrange(i, s.len() as int));
    } else {
        let e = chunk_end(s, i, 0);
        lemma_chunk_end_progress(s, i);
        lemma_chunks_cover(s, e);
        lemma_chunk_end_sum(s, i, 0);
        assert(chunks_from(s, i) == seq![s.subrange(i, e)] + chunks_from(s, e));
        assert(chunks_from(s, i).drop_first() =~= chunks_from(s, e));
        assert(chunks_from(s, i).flatten() == s.subrange(i, e) + chunks_from(s, e).flatten());
        assert(s.subrange(i, e) + s.subrange(e, s.len() as int) =~= s.subrange(
            i,
            s.len() as int,
        ));
        assert forall|k: int| 0 <= k < chunks_from(s, i).len() implies (#[trigger] chunks_from(
            s,
            i,
        )[k]).len() > 0 && utf8_sum(chunks_from(s, i)[k]) <= MAX_CODE_LENGTH as int by {
            if k > 0 {
                assert(chunks_from(s, i)[k] == chunks_from(s, e)[k - 1]);
            }
        }
    }
}

/// The number of bytes the UTF-8 encoding of `c` takes.
pub fn utf8_len_exec(c: char) -> (r: usize)
    ensures
        r as int == utf8_len(c),
{
    let u = c as u32;
    if u < 0x80 {
        1
    } else if u < 0x800 {
        2
    } else if u < 0x10000 {
        3
    } else {
        4
    }
}

/// Splits code text into chunks of whole characters, each within the
/// destination's byte ceiling.
pub fn chunk_code(value: &str) -> (r: Vec<String>)
    ensures
        r.deep_view() == spec_chunks(value@),
{
    let chars = str_to_chars(value);
    let ghost s = value@;
    let n = chars.len();
    let mut chunks: Vec<String> = Vec::new();
    let mut i: usize = 0;
    while i < n
        invariant
            chars@ == s,
            n == s.len(),
            i <= n,
            spec_chunks(s) == chunks.deep_view() + chunks_from(s, i as int),
        decreases n - i,
    {
        let ghost start = i as int;
        let mut used: usize = 0;
        let mut cur: Vec<char> = Vec::new();
        proof {
            assert(cur@ =~= s.subrange(start, i as int));
        }
        loop
            invariant
                0 <= start <= i <= n,
                n == s.len(),
                chars@ == s,
                used <= MAX_CODE_LENGTH,
                cur@ == s.subrange(start, i as int),
                chunk_end(s, start, 0) == chunk_end(s, i as int, used as int),
            ensures
                0 <= start <= i <= n,
                n == s.len(),
                chars@ == s,
                cur@ == s.subrange(start, i as int),
                i as int == chunk_end(s, start, 0),
            decreases n - i,
        {
            if i >= n {
                break ;
            }
            let l = utf8_len_exec(chars[i]);
            if used + l > MAX_CODE_LENGTH {
                break ;
            }
            cur.push(chars[i]);
            used = used + l;
            i = i + 1;
            proof {
                assert(cur@ =~= s.subrange(start, i as int));
            }
        }
        chunks.push(crate::external::chars_to_string(&cur));
        proof {
            lemma_chunk_end_progress(s, start);
            assert(chunks.deep_view() =~= chunks.deep_view().drop_last() + seq![
                s.subrange(start, i as int),
            ]);
            assert(chunks_from(s, start) == seq![s.subrange(start, chunk_end(s, start, 0))]
                + chunks_from(s, chunk_end(s, start, 0)));
            assert(spec_chunks(s) == chunks.deep_view() + chunks_from(s, i as int));
        }
    }
    proof {
        assert(chunks.deep_view() =~= chunks.deep_view() + chunks_from(s, i as int));
    }
    chunks
}

/// Resolves one link or image URL for a document, enriching any failure
/// with the document path.
pub fn resolve_link(
    url: &str,
    file_path: &String,
    page_id: &String,
    path_to_page_id: &PathIdMap,
    page_title: &String,
) -> (r: Result<String, NotationError>)
    requires
        path_to_page_id.wf(),
    ensures
        ({
            let ctx = Ctx {
                file: file_path@,
                page_id: page_id@,
                map: path_to_page_id.as_map(),
                title: page_title@,
            };
            match r {
                Ok(u) => spec_resolve(url@, ctx) == Ok::<Seq<char>, ConvErr>(u@),
                Err(e) => (spec_resolve(url@, ctx) matches Err(ev) && err_matches(
                    e,
                    ev,
                    file_path@,
                )),
            }
        }),
{
    let ghost ctx = Ctx {
        file: file_path@,
        page_id: page_id@,
        map: path_to_page_id.as_map(),
        title: page_title@,
    };
    let n = url.unicode_len();
    if n >= 1 && url.get_char(0) == '#' {
        let u = String::from_str("https://www.notion.so/").concat(page_id.as_str());
        if parse_url_ok(u.as_str()) {
            Ok(u)
        } else {
            Err(
                NotationError::Validation {
                    page: file_path.clone(),
                    url: String::from_str(url),
                },
            )
        }
    } else if n >= 1 && url.get_char(0) == '.' {
        let path_part = take_until_char(url, '#');
        let base = parent_of(file_path.as_str());
        let joined = join_rel(base.as_str(), path_part.as_str());
        match reconcile_path(joined.as_str()) {
            Option::Some(p) => {
                match path_to_page_id.get(p.as_str()) {
                    Option::Some(pid) => {
                        let formatted_pid = remove_dashes(pid.as_str());
                        let formatted_title = spaces_to_dashes(page_title.as_str());
                        let u = String::from_str("https://www.notion.so/").concat(
                            formatted_title.as_str(),
                        ).concat("-").concat(formatted_pid.as_str());
                        proof {
                            reveal_strlit("-");
                            assert(u@ =~= internal_url(ctx.title, ctx.map[p@]));
                        }
                        if parse_url_ok(u.as_str()) {
                            Ok(u)
                        } else {
                            Err(
                                NotationError::Validation {
                                    page: file_path.clone(),
                                    url: String::from_str(url),
                                },
                            )
                        }
                    },
                    Option::None => Err(
                        NotationError::UnresolvedLink {
                            page: file_path.clone(),
                            url: String::from_str(url),
                        },
                    ),
                }
            },
            Option::None => Err(
                NotationError::Validation {
                    page: file_path.clone(),
                    url: String::from_str(url),
                },
            ),
        }
    } else {
        if parse_url_ok(url) {
            Ok(String::from_str(url))
        } else {
            Err(
                NotationError::Validation {
                    page: file_path.clone(),
                    url: String::from_str(url),
                },
            )
        }
    }
}

/// The spans a strong (bold) run contributes, from its `i`-th child on:
/// each text child becomes a bold span, anything else is skipped.
pub open spec fn strong_spans(children: Seq<MdNode>, i: int, spans: Seq<SpanV>) -> Seq<SpanV>
    decreases children.len() - i when 0 <= i <= children.len()
{
    if i >= children.len() {
        spans
    } else {
        let next = match children[i] {
            MdNode::Text { value, line } => spans.push(
                span_with_ann(span_text(replace_nl(value@)), ann_bold()),
            ),
            _ => spans,
        };
        strong_spans(children, i + 1, next)
    }
}

/// The paragraph fold, from child `i` on, over the spans accumulated so
/// far, the block children already sealed, and whether positioned
/// content has been seen:
/// - a text run opening with the directive marker on the document's
///   first line is dropped;
/// - whitespace-only text before the first positioned content is
///   skipped;
/// - any other text becomes a span with newlines collapsed;
/// - a link resolves (or fails the whole paragraph) and contributes a
///   hyperlinked span whose content is its first text child, or the raw
///   URL where it has no children at all;
/// - an image seals the accumulated spans into a paragraph child, must
///   itself be a well-formed URL, and becomes its own image child;
/// - strong, inline-code and inline-math runs contribute annotated
///   spans;
/// - anything else is skipped.
/// At the end, leftover spans are sealed into one last paragraph child.
pub open spec fn para_from(
    children: Seq<MdNode>,
    ctx: Ctx,
    i: int,
    spans: Seq<SpanV>,
    out: Seq<ChildV>,
    seen: bool,
) -> Result<Seq<ChildV>, ConvErr>
    decreases children.len() - i when 0 <= i <= children.len()
{
    if i >= children.len() {
        Ok(
            if spans.len() > 0 {
                out.push(child_paragraph(spans))
            } else {
                out
            },
        )
    } else {
        match children[i] {
            MdNode::Text { value, line } => {
                if starts_with_dashes(value@) && line == Some(1usize) {
                    para_from(children, ctx, i + 1, spans, out, seen)
                } else if !seen && all_space(value@) {
                    para_from(children, ctx, i + 1, spans, out, seen)
                } else {
                    let seen2 = if !seen && line is Some {
                        true
                    } else {
                        seen
                    };
                    para_from(
                        children,
                        ctx,
                        i + 1,
                        spans.push(span_text(replace_nl(value@))),
                        out,
                        seen2,
                    )
                }
            },
            MdNode::Link { url, children: lc } => {
                match spec_resolve(url@, ctx) {
                    Err(e) => Err(e),
                    Ok(u) => {
                        if lc@.len() > 0 {
                            match lc@[0] {
                                MdNode::Text { value, line } => para_from(
                                    children,
                                    ctx,
                                    i + 1,
                                    spans.push(span_link(value@, u)),
                                    out,
                                    seen,
                                ),
                                _ => para_from(children, ctx, i + 1, spans, out, seen),
                            }
                        } else {
                            para_from(
                                children,
                                ctx,
                                i + 1,
                                spans.push(span_link(url@, u)),
                                out,
                                seen,
                            )
                        }
                    },
                }
            },
            MdNode::Image { url } => {
                let out2 = if spans.len() > 0 {
                    out.push(child_paragraph(spans))
                } else {
                    out
                };
                if url_ok(url@) {
                    para_from(
                        children,
                        ctx,
                        i + 1,
                        Seq::<SpanV>::empty(),
                        out2.push(child_image(url@)),
                        seen,
                    )
                } else {
                    Err(ConvErr::Validation { url: url@ })
                }
            },
            MdNode::Strong { children: sc } => para_from(
                children,
                ctx,
                i + 1,
                strong_spans(sc@, 0, spans),
                out,
                seen,
            ),
            MdNode::InlineCode { value } => para_from(
                children,
                ctx,
                i + 1,
                spans.push(span_with_ann(span_text(replace_nl(value@)), ann_code())),
                out,
                seen,
            ),
            MdNode::InlineMath { value } => para_from(
                children,
                ctx,
                i + 1,
                spans.push(span_with_ann(span_text(replace_nl(value@)), ann_code())),
                out,
                seen,
            ),
            _ => para_from(children, ctx, i + 1, spans, out, seen),
        }
    }
}

/// The Block Children a paragraph node produces.
pub open spec fn spec_build_paragraph(children: Seq<MdNode>, ctx: Ctx) -> Result<
    Seq<ChildV>,
    ConvErr,
> {
    para_from(children, ctx, 0, Seq::<SpanV>::empty(), Seq::<ChildV>::empty(), false)
}

/// Converts one paragraph node into its Block Children, resolving links
/// against the completed map; the first failure aborts the paragraph.
pub fn build_paragraph(
    p: &MdNode,
    file_path: &String,
    page_id: &String,
    path_to_page_id: &PathIdMap,
    page_title: &String,
) -> (r: Result<Vec<AppendBlockRequestChild>, NotationError>)
    requires
        path_to_page_id.wf(),
        p matches MdNode::Paragraph { .. },
    ensures
        ({
            let ctx = Ctx {
                file: file_path@,
                page_id: page_id@,
                map: path_to_page_id.as_map(),
                title: page_title@,
            };
            let cs = p->Paragraph_children;
            match r {
                Ok(v) => spec_build_paragraph(cs@, ctx) == Ok::<Seq<ChildV>, ConvErr>(
                    v.deep_view(),
                ),
                Err(e) => (spec_build_paragraph(cs@, ctx) matches Err(ev) && err_matches(
                    e,
                    ev,
                    file_path@,
                )),
            }
        }),
{
    let ghost ctx = Ctx {
        file: file_path@,
        page_id: page_id@,
        map: path_to_page_id.as_map(),
        title: page_title@,
    };
    match p {
        MdNode::Paragraph { children } => {
            let ghost cs = children@;
            let mut pblocks: Vec<NotionBlock> = Vec::new();
            let mut request_children: Vec<AppendBlockRequestChild> = Vec::new();
            let mut seen: bool = false;
            let mut i: usize = 0;
            let n = children.len();
            proof {
                assert(pblocks.deep_view() =~= Seq::<SpanV>::empty());
                assert(request_children.deep_view() =~= Seq::<ChildV>::empty());
            }
            while i < n
                invariant
                    path_to_page_id.wf(),
                    ctx == (Ctx {
                        file: file_path@,
                        page_id: page_id@,
                        map: path_to_page_id.as_map(),
                        title: page_title@,
                    }),
                    p is Paragraph,
                    p->Paragraph_children@ == cs,
                    children@ == cs,
                    n == cs.len(),
                    i <= n,
                    spec_build_paragraph(cs, ctx) == para_from(
                        cs,
                        ctx,
                        i as int,
                        pblocks.deep_view(),
                        request_children.deep_view(),
                        seen,
                    ),
                decreases n - i,
            {
                let ghost spans0 = pblocks.deep_view();
                let ghost out0 = request_children.deep_view();
                match &children[i] {
                    MdNode::Text { value, line } => {
                        let on_first_line: bool = match line {
                            Option::Some(l) => *l == 1,
                            Option::None => false,
                        };
                        if has_dash_prefix(value.as_str()) && on_first_line {
                            // the metadata directive line contributes no content
                        } else if !seen && is_all_space(value.as_str()) {
                            // leading whitespace-only text is skipped
                        } else {
                            if !seen && line.is_some() {
                                seen = true;
                            }
                            pblocks.push(
                                NotionBlock::new_text_block(replace_newlines(value.as_str())),
                            );
                            proof {
                                assert(pblocks.deep_view() =~= spans0.push(
                                    span_text(replace_nl(value@)),
                                ));
                            }
                        }
                        i = i + 1;
                    },
                    MdNode::Link { url, children: lc } => {
                        match resolve_link(
                            url.as_str(),
                            file_path,
                            page_id,
                            path_to_page_id,
                            page_title,
                        ) {
                            Ok(u) => {
                                if lc.len() > 0 {
                                    match &lc[0] {
                                        MdNode::Text { value, line } => {
                                            pblocks.push(
                                                NotionBlock::new_link_block(value.clone(), u),
                                            );
                                            proof {
                                                assert(pblocks.deep_view() =~= spans0.push(
                                                    span_link(value@, u@),
                                                ));
                                            }
                                        },
                                        _ => {},
                                    }
                                } else {
                                    pblocks.push(NotionBlock::new_link_block(url.clone(), u));
                                    proof {
                                        assert(pblocks.deep_view() =~= spans0.push(
                                            span_link(url@, u@),
                                        ));
                                    }
                                }
                                i = i + 1;
                            },
                            Err(e) => {
                                return Err(e);
                            },
                        }
                    },
                    MdNode::Image { url } => {
                        if pblocks.len() > 0 {
                            let sealed = crate::blocks::clone_spans(&pblocks);
                            request_children.push(
                                AppendBlockRequestChild::new_rich_text(
                                    BlockType::Paragraph,
                                    sealed,
                                ),
                            );
                            pblocks = Vec::new();
                            proof {
                                assert(request_children.deep_view() =~= out0.push(
                                    child_paragraph(spans0),
                                ));
                                assert(pblocks.deep_view() =~= Seq::<SpanV>::empty());
                            }
                        }
                        proof {
                            assert(pblocks.deep_view() =~= Seq::<SpanV>::empty());
                        }
                        if !parse_url_ok(url.as_str()) {
                            return Err(
                                NotationError::Validation {
                                    page: file_path.clone(),
                                    url: url.clone(),
                                },
                            );
                        }
                        let ghost out1 = request_children.deep_view();
                        request_children.push(
                            AppendBlockRequestChild::new_external_image_block(url.clone()),
                        );
                        proof {
                            assert(request_children.deep_view() =~= out1.push(child_image(url@)));
                        }
                        i = i + 1;
                    },
                    MdNode::Strong { children: sc } => {
                        let ghost scv = sc@;
                        let mut j: usize = 0;
                        let m = sc.len();
                        while j < m
                            invariant
                                m == scv.len(),
                                sc@ == scv,
                                j <= m,
                                strong_spans(scv, j as int, pblocks.deep_view()) == strong_spans(
                                    scv,
                                    0,
                                    spans0,
                                ),
                            decreases m - j,
                        {
                            let ghost sp = pblocks.deep_view();
                            match &sc[j] {
                                MdNode::Text { value, line } => {
                                    pblocks.push(
                                        NotionBlock::new_text_block(
                                            replace_newlines(value.as_str()),
                                        ).with_annotations(TextAnnotations::bold()),
                                    );
                                    proof {
                                        assert(pblocks.deep_view() =~= sp.push(
                                            span_with_ann(
                                                span_text(replace_nl(value@)),
                                                ann_bold(),
                                            ),
                                        ));
                                    }
                                },
                                _ => {},
                            }
                            j = j + 1;
                        }
                        i = i + 1;
                    },
                    MdNode::InlineCode { value } => {
                        pblocks.push(
                            NotionBlock::new_text_block(
                                replace_newlines(value.as_str()),
                            ).with_annotations(TextAnnotations::code()),
                        );
                        proof {
                            assert(pblocks.deep_view() =~= spans0.push(
                                span_with_ann(span_text(replace_nl(value@)), ann_code()),
                            ));
                        }
                        i = i + 1;
                    },
                    MdNode::InlineMath { value } => {
                        pblocks.push(
                            NotionBlock::new_text_block(
                                replace_newlines(value.as_str()),
                            ).with_annotations(TextAnnotations::code()),
                        );
                        proof {
                            assert(pblocks.deep_view() =~= spans0.push(
                                span_with_ann(span_text(replace_nl(value@)), ann_code()),
                            ));
                        }
                        i = i + 1;
                    },
                    _ => {
                        i = i + 1;
                    },
                }
            }
            if pblocks.len() > 0 {
                let ghost spans0 = pblocks.deep_view();
                let ghost out0 = request_children.deep_view();
                request_children.push(
                    AppendBlockRequestChild::new_rich_text(BlockType::Paragraph, pblocks),
                );
                proof {
                    assert(request_children.deep_view() =~= out0.push(child_paragraph(spans0)));
                }
            }
            Ok(request_children)
        },
        _ => {
            proof {
                assert(false);
            }
            Err(
                NotationError::Io { detail: String::new() },
            )
        },
    }
}

/// All the spans the given block children carry, in order: the payload
/// of each rich-text-bearing child, concatenated.
pub open spec fn gather_rich_text(cs: Seq<ChildV>, i: int, acc: Seq<SpanV>) -> Seq<SpanV>
    decreases cs.len() - i when 0 <= i <= cs.len()
{
    if i >= cs.len() {
        acc
    } else {
        let next = match spec_rich_text_blocks(cs[i]) {
            Option::Some(spans) => acc + spans,
            Option::None => acc,
        };
        gather_rich_text(cs, i + 1, next)
    }
}

/// The list-item children one list item contributes, from its `j`-th
/// child on: each direct paragraph child is converted, its spans are
/// gathered into one run, and that run becomes one bulleted or numbered
/// item; deeper nesting is dropped.
pub open spec fn list_item_from(
    li_children: Seq<MdNode>,
    ctx: Ctx,
    ordered: bool,
    j: int,
    out: Seq<ChildV>,
) -> Result<Seq<ChildV>, ConvErr>
    decreases li_children.len() - j when 0 <= j <= li_children.len()
{
    if j >= li_children.len() {
        Ok(out)
    } else {
        match li_children[j] {
            MdNode::Paragraph { children } => match spec_build_paragraph(children@, ctx) {
                Err(e) => Err(e),
                Ok(pb) => {
                    let spans = gather_rich_text(pb, 0, Seq::<SpanV>::empty());
                    let bt = if ordered {
                        BlockType::NumberedListItem
                    } else {
                        BlockType::BulletedListItem
                    };
                    list_item_from(li_children, ctx, ordered, j + 1, out.push(
                        child_rich_text(bt, spans),
                    ))
                },
            },
            _ => list_item_from(li_children, ctx, ordered, j + 1, out),
        }
    }
}

/// The children a list node contributes, from its `i`-th child on: each
/// list-item child contributes its items, anything else is skipped.
pub open spec fn list_from(
    items: Seq<MdNode>,
    ctx: Ctx,
    ordered: bool,
    i: int,
    out: Seq<ChildV>,
) -> Result<Seq<ChildV>, ConvErr>
    decreases items.len() - i when 0 <= i <= items.len()
{
    if i >= items.len() {
        Ok(out)
    } else {
        match items[i] {
            MdNode::ListItem { children } => match list_item_from(
                children@,
                ctx,
                ordered,
                0,
                out,
            ) {
                Err(e) => Err(e),
                Ok(out2) => list_from(items, ctx, ordered, i + 1, out2),
            },
            _ => list_from(items, ctx, ordered, i + 1, out),
        }
    }
}

/// The Block Children a list node produces.
pub open spec fn spec_build_list(ordered: bool, children: Seq<MdNode>, ctx: Ctx) -> Result<
    Seq<ChildV>,
    ConvErr,
> {
    list_from(children, ctx, ordered, 0, Seq::<ChildV>::empty())
}

/// Appends the given spans at the end of a span list, keeping order.
fn extend_spans(dst: &mut Vec<NotionBlock>, src: Vec<NotionBlock>)
    ensures
        final(dst).deep_view() == old(dst).deep_view() + src.deep_view(),
{
    let ghost added = src.deep_view();
    let mut rest = src;
    dst.append(&mut rest);
    proof {
        assert forall|j: int| 0 <= j < dst.deep_view().len() implies dst.deep_view()[j] == (old(
            dst,
        ).deep_view() + added)[j] by {
            assert(dst.deep_view()[j] == dst@[j].deep_view());
            if j < old(dst)@.len() {
                assert(old(dst).deep_view()[j] == old(dst)@[j].deep_view());
            } else {
                assert(added[j - old(dst)@.len()] == src@[j - old(dst)@.len()].deep_view());
            }
        }
        assert(dst.deep_view() =~= old(dst).deep_view() + added);
    }
}

/// Converts a list node: one bulleted or numbered item per direct
/// paragraph of each list item.
pub fn build_list(
    list: &MdNode,
    file_path: &String,
    page_id: &String,
    path_to_page_id: &PathIdMap,
    page_title: &String,
) -> (r: Result<Vec<AppendBlockRequestChild>, NotationError>)
    requires
        path_to_page_id.wf(),
        list matches MdNode::List { .. },
    ensures
        ({
            let ctx = Ctx {
                file: file_path@,
                page_id: page_id@,
                map: path_to_page_id.as_map(),
                title: page_title@,
            };
            match r {
                Ok(v) => spec_build_list(list->List_ordered, list->List_children@, ctx) == Ok::<
                    Seq<ChildV>,
                    ConvErr,
                >(v.deep_view()),
                Err(e) => (spec_build_list(list->List_ordered, list->List_children@, ctx) matches
                    Err(ev) && err_matches(e, ev, file_path@)),
            }
        }),
{
    let ghost ctx = Ctx {
        file: file_path@,
        page_id: page_id@,
        map: path_to_page_id.as_map(),
        title: page_title@,
    };
    match list {
        MdNode::List { ordered, children } => {
            let ghost cs = children@;
            let ord: bool = *ordered;
            let mut out: Vec<AppendBlockRequestChild> = Vec::new();
            let mut i: usize = 0;
            let n = children.len();
            proof {
                assert(out.deep_view() =~= Seq::<ChildV>::empty());
            }
            while i < n
                invariant
                    path_to_page_id.wf(),
                    ctx == (Ctx {
                        file: file_path@,
                        page_id: page_id@,
                        map: path_to_page_id.as_map(),
                        title: page_title@,
                    }),
                    list is List,
                    list->List_ordered == ord,
                    list->List_children@ == cs,
                    children@ == cs,
                    n == cs.len(),
                    i <= n,
                    spec_build_list(ord, cs, ctx) == list_from(
                        cs,
                        ctx,
                        ord,
                        i as int,
                        out.deep_view(),
                    ),
                decreases n - i,
            {
                match &children[i] {
                    MdNode::ListItem { children: li } => {
                        let ghost liv = li@;
                        let ghost entry0 = out.deep_view();
                        let mut j: usize = 0;
                        let m = li.len();
                        while j < m
                            invariant
                                path_to_page_id.wf(),
                                ctx == (Ctx {
                                    file: file_path@,
                                    page_id: page_id@,
                                    map: path_to_page_id.as_map(),
                                    title: page_title@,
                                }),
                                list is List,
                                list->List_ordered == ord,
                                list->List_children@ == cs,
                                n == cs.len(),
                                i < n,
                                (cs[i as int] matches MdNode::ListItem { children: lic }
                                    && lic@ == liv),
                                li@ == liv,
                                m == liv.len(),
                                j <= m,
                                spec_build_list(ord, cs, ctx) == list_from(
                                    cs,
                                    ctx,
                                    ord,
                                    i as int,
                                    entry0,
                                ),
                                list_item_from(liv, ctx, ord, 0, entry0) == list_item_from(
                                    liv,
                                    ctx,
                                    ord,
                                    j as int,
                                    out.deep_view(),
                                ),
                            decreases m - j,
                        {
                            let ghost out_j = out.deep_view();
                            match &li[j] {
                                MdNode::Paragraph { children: pc } => {
                                    match build_paragraph(
                                        &li[j],
                                        file_path,
                                        page_id,
                                        path_to_page_id,
                                        page_title,
                                    ) {
                                        Ok(pb) => {
                                            let ghost pbv = pb.deep_view();
                                            let mut lblocks: Vec<NotionBlock> = Vec::new();
                                            let mut k: usize = 0;
                                            let q = pb.len();
                                            proof {
                                                assert(lblocks.deep_view() =~= Seq::<
                                                    SpanV,
                                                >::empty());
                                            }
                                            while k < q
                                                invariant
                                                    q == pb@.len(),
                                                    pb.deep_view() == pbv,
                                                    pbv.len() == q,
                                                    k <= q,
                                                    gather_rich_text(pbv, 0, Seq::<
                                                        SpanV,
                                                    >::empty()) == gather_rich_text(
                                                        pbv,
                                                        k as int,
                                                        lblocks.deep_view(),
                                                    ),
                                                decreases q - k,
                                            {
                                                proof {
                                                    assert(pbv[k as int] == pb@[
                                                        k as int].deep_view());
                                                }
                                                match pb[k].get_rich_text_blocks() {
                                                    Option::Some(rtb) => {
                                                        extend_spans(&mut lblocks, rtb);
                                                    },
                                                    Option::None => {},
                                                }
                                                k = k + 1;
                                            }
                                            let block_type = if ord {
                                                BlockType::NumberedListItem
                                            } else {
                                                BlockType::BulletedListItem
                                            };
                                            out.push(
                                                AppendBlockRequestChild::new_rich_text(
                                                    block_type,
                                                    lblocks,
                                                ),
                                            );
                                            proof {
                                                assert(out.deep_view() =~= out_j.push(
                                                    child_rich_text(
                                                        block_type,
                                                        gather_rich_text(pbv, 0, Seq::<
                                                            SpanV,
                                                        >::empty()),
                                                    ),
                                                ));
                                            }
                                        },
                                        Err(e) => {
                                            return Err(e);
                                        },
                                    }
                                },
                                _ => {},
                            }
                            j = j + 1;
                        }
                        i = i + 1;
                    },
                    _ => {
                        i = i + 1;
                    },
                }
            }
            Ok(out)
        },
        _ => {
            proof {
                assert(false);
            }
            Err(NotationError::Io { detail: String::new() })
        },
    }
}


/// The spans a table cell contributes: only its direct text children,
/// newlines collapsed; anything richer is dropped.
pub open spec fn cell_texts(cell_children: Seq<MdNode>, k: int, acc: Seq<SpanV>) -> Seq<SpanV>
    decreases cell_children.len() - k when 0 <= k <= cell_children.len()
{
    if k >= cell_children.len() {
        acc
    } else {
        let next = match cell_children[k] {
            MdNode::Text { value, line } => acc.push(span_text(replace_nl(value@))),
            _ => acc,
        };
        cell_texts(cell_children, k + 1, next)
    }
}

/// The spans one table row contributes, across its cells in order.
pub open spec fn row_spans(row_children: Seq<MdNode>, k: int, acc: Seq<SpanV>) -> Seq<SpanV>
    decreases row_children.len() - k when 0 <= k <= row_children.len()
{
    if k >= row_children.len() {
        acc
    } else {
        let next = match row_children[k] {
            MdNode::TableCell { children } => cell_texts(children@, 0, acc),
            _ => acc,
        };
        row_spans(row_children, k + 1, next)
    }
}

/// The table's width: the largest cell count over its row children.
pub open spec fn table_width_from(rows: Seq<MdNode>, i: int, cur: int) -> int
    decreases rows.len() - i when 0 <= i <= rows.len()
{
    if i >= rows.len() {
        cur
    } else {
        let next = match rows[i] {
            MdNode::TableRow { children } => if children@.len() > cur {
                children@.len() as int
            } else {
                cur
            },
            _ => cur,
        };
        table_width_from(rows, i + 1, next)
    }
}

/// The table-row children, one per child of the table node (a non-row
/// child yields an empty row).
pub open spec fn table_rows_from(rows: Seq<MdNode>, i: int, acc: Seq<ChildV>) -> Seq<ChildV>
    decreases rows.len() - i when 0 <= i <= rows.len()
{
    if i >= rows.len() {
        acc
    } else {
        let spans = match rows[i] {
            MdNode::TableRow { children } => row_spans(children@, 0, Seq::<SpanV>::empty()),
            _ => Seq::<SpanV>::empty(),
        };
        table_rows_from(rows, i + 1, acc.push(child_table_row(spans)))
    }
}

/// The one Block Child a table node produces: the table with its width,
/// both header flags set, and its rows.
pub open spec fn spec_build_table(children: Seq<MdNode>) -> Seq<ChildV> {
    seq![
        child_table(
            table_width_from(children, 0, 0),
            true,
            true,
            table_rows_from(children, 0, Seq::<ChildV>::empty()),
        ),
    ]
}

/// Converts a table node: each row's direct cell texts become one-span
/// cells, the width is the largest cell count observed, and both header
/// flags are set.
pub fn build_table(table: &MdNode) -> (r: Vec<AppendBlockRequestChild>)
    requires
        table matches MdNode::Table { .. },
    ensures
        r.deep_view() == spec_build_table(table->Table_children@),
{
    match table {
        MdNode::Table { children } => {
            let ghost cs = children@;
            let mut rows: Vec<AppendBlockRequestChild> = Vec::new();
            let mut table_length: usize = 0;
            let mut i: usize = 0;
            let n = children.len();
            proof {
                assert(rows.deep_view() =~= Seq::<ChildV>::empty());
            }
            while i < n
                invariant
                    children@ == cs,
                    n == cs.len(),
                    i <= n,
                    table_width_from(cs, 0, 0) == table_width_from(cs, i as int, table_length as int),
                    table_rows_from(cs, 0, Seq::<ChildV>::empty()) == table_rows_from(
                        cs,
                        i as int,
                        rows.deep_view(),
                    ),
                decreases n - i,
            {
                let ghost rows0 = rows.deep_view();
                let mut cells: Vec<NotionBlock> = Vec::new();
                proof {
                    assert(cells.deep_view() =~= Seq::<SpanV>::empty());
                }
                match &children[i] {
                    MdNode::TableRow { children: tr } => {
                        let ghost trv = tr@;
                        if tr.len() > table_length {
                            table_length = tr.len();
                        }
                        let mut k: usize = 0;
                        let m = tr.len();
                        while k < m
                            invariant
                                tr@ == trv,
                                m == trv.len(),
                                k <= m,
                                row_spans(trv, 0, Seq::<SpanV>::empty()) == row_spans(
                                    trv,
                                    k as int,
                                    cells.deep_view(),
                                ),
                            decreases m - k,
                        {
                            match &tr[k] {
                                MdNode::TableCell { children: tc } => {
                                    let ghost tcv = tc@;
                                    let ghost cells0 = cells.deep_view();
                                    let mut q: usize = 0;
                                    let w = tc.len();
                                    while q < w
                                        invariant
                                            tc@ == tcv,
                                            w == tcv.len(),
                                            q <= w,
                                            cell_texts(tcv, 0, cells0) == cell_texts(
                                                tcv,
                                                q as int,
                                                cells.deep_view(),
                                            ),
                                        decreases w - q,
                                    {
                                        let ghost cq = cells.deep_view();
                                        match &tc[q] {
                                            MdNode::Text { value, line } => {
                                                cells.push(
                                                    NotionBlock::new_text_block(
                                                        replace_newlines(value.as_str()),
                                                    ),
                                                );
                                                proof {
                                                    assert(cells.deep_view() =~= cq.push(
                                                        span_text(replace_nl(value@)),
                                                    ));
                                                }
                                            },
                                            _ => {},
                                        }
                                        q = q + 1;
                                    }
                                },
                                _ => {},
                            }
                            k = k + 1;
                        }
                    },
                    _ => {},
                }
                rows.push(AppendBlockRequestChild::new_table_row_block(cells));
                i = i + 1;
                proof {
                    match cs[i - 1] {
                        MdNode::TableRow { children } => {
                            assert(rows.deep_view() =~= rows0.push(
                                child_table_row(row_spans(children@, 0, Seq::<SpanV>::empty())),
                            ));
                        },
                        _ => {
                            assert(rows.deep_view() =~= rows0.push(
                                child_table_row(Seq::<SpanV>::empty()),
                            ));
                        },
                    }
                }
            }
            let mut out: Vec<AppendBlockRequestChild> = Vec::new();
            out.push(
                AppendBlockRequestChild::new_table_block(table_length, true, true, rows),
            );
            proof {
                assert(out.deep_view() =~= spec_build_table(cs));
            }
            out
        },
        _ => {
            proof {
                assert(false);
            }
            Vec::new()
        },
    }
}


/// The children a node carries, where its kind has any.
pub open spec fn md_children(n: MdNode) -> Seq<MdNode> {
    match n {
        MdNode::Root { children } => children@,
        MdNode::Heading { depth, children } => children@,
        MdNode::Paragraph { children } => children@,
        MdNode::List { ordered, children } => children@,
        MdNode::ListItem { children } => children@,
        MdNode::Link { url, children } => children@,
        MdNode::Strong { children } => children@,
        MdNode::Table { children } => children@,
        MdNode::TableRow { children } => children@,
        MdNode::TableCell { children } => children@,
        _ => Seq::<MdNode>::empty(),
    }
}

/// Converting one node under its parent: containers recurse (a heading
/// or the root becomes the parent of its children, a list item passes
/// the grandparent through), a text run becomes the block its parent
/// calls for (heading content, a paragraph, or a list item), paragraphs,
/// lists and tables go through their builders, a code node is chunked
/// and its language canonicalized, and unrecognized kinds contribute
/// nothing.
pub open spec fn spec_convert_node(node: MdNode, parent: MdNode, ctx: Ctx) -> Result<
    Seq<ChildV>,
    ConvErr,
>
    decreases node, 0int,
{
    match node {
        MdNode::Heading { depth, children } => convert_seq(
            children@,
            node,
            ctx,
            0,
            Seq::<ChildV>::empty(),
        ),
        MdNode::List { ordered, children } => spec_build_list(ordered, children@, ctx),
        MdNode::ListItem { children } => convert_seq(
            children@,
            parent,
            ctx,
            0,
            Seq::<ChildV>::empty(),
        ),
        MdNode::Text { value, line } => Ok(
            match parent {
                MdNode::Heading { depth, children } => seq![child_heading(value@, depth)],
                MdNode::Root { children } => seq![child_paragraph_text(value@)],
                MdNode::ListItem { children } => seq![child_bulleted_text(value@)],
                MdNode::List { ordered, children } => if ordered {
                    seq![child_numbered_text(value@)]
                } else {
                    seq![child_bulleted_text(value@)]
                },
                _ => Seq::<ChildV>::empty(),
            },
        ),
        MdNode::Paragraph { children } => spec_build_paragraph(children@, ctx),
        MdNode::Code { lang, value } => Ok(
            seq![
                child_code(
                    spec_chunks(value@),
                    crate::language::spec_language_of(lang.deep_view()),
                ),
            ],
        ),
        MdNode::Root { children } => convert_seq(children@, node, ctx, 0, Seq::<ChildV>::empty()),
        MdNode::Table { children } => Ok(spec_build_table(children@)),
        _ => Ok(Seq::<ChildV>::empty()),
    }
}

/// Converting a run of children under one parent, accumulating their
/// block children in order; the first failure aborts.
pub open spec fn convert_seq(
    children: Seq<MdNode>,
    parent: MdNode,
    ctx: Ctx,
    i: int,
    acc: Seq<ChildV>,
) -> Result<Seq<ChildV>, ConvErr>
    decreases children, children.len() - i when 0 <= i <= children.len()
{
    if i >= children.len() {
        Ok(acc)
    } else {
        match spec_convert_node(children[i], parent, ctx) {
            Err(e) => Err(e),
            Ok(cs) => convert_seq(children, parent, ctx, i + 1, acc + cs),
        }
    }
}

/// Appends the conversion of each child of one container in order.
fn recurse_children(
    request: &mut AppendBlockRequest,
    children: &Vec<MdNode>,
    parent: &MdNode,
    path: &String,
    page_id: &String,
    path_to_page_id: &PathIdMap,
    page_title: &String,
) -> (r: Result<(), NotationError>)
    requires
        path_to_page_id.wf(),
    ensures
        final(request)@.len() >= old(request)@.len(),
        final(request)@.subrange(0, old(request)@.len() as int) == old(request)@,
        ({
            let ctx = Ctx {
                file: path@,
                page_id: page_id@,
                map: path_to_page_id.as_map(),
                title: page_title@,
            };
            match r {
                Ok(u) => (convert_seq(children@, *parent, ctx, 0, Seq::<ChildV>::empty()) matches
                    Ok(cs) && final(request)@ == old(request)@ + cs),
                Err(e) => (convert_seq(children@, *parent, ctx, 0, Seq::<ChildV>::empty()) matches
                    Err(ev) && err_matches(e, ev, path@)),
            }
        }),
    decreases children@,
{
    let ghost ctx = Ctx {
        file: path@,
        page_id: page_id@,
        map: path_to_page_id.as_map(),
        title: page_title@,
    };
    let ghost cs = children@;
    let ghost base = request@;
    let mut i: usize = 0;
    let n = children.len();
    proof {
        assert(request@.skip(base.len() as int) =~= Seq::<ChildV>::empty());
        assert(request@.subrange(0, base.len() as int) =~= base);
    }
    while i < n
        invariant
            path_to_page_id.wf(),
            ctx == (Ctx {
                file: path@,
                page_id: page_id@,
                map: path_to_page_id.as_map(),
                title: page_title@,
            }),
            children@ == cs,
            n == cs.len(),
            i <= n,
            base == old(request)@,
            request@.len() >= base.len(),
            request@.subrange(0, base.len() as int) == base,
            convert_seq(cs, *parent, ctx, 0, Seq::<ChildV>::empty()) == convert_seq(
                cs,
                *parent,
                ctx,
                i as int,
                request@.skip(base.len() as int),
            ),
        decreases n - i,
    {
        proof {
            assert(decreases_to!(children@ => children@[i as int]));
        }
        let ghost before = request@;
        match recurse_markdown_tree(
            request,
            &children[i],
            parent,
            path,
            page_id,
            path_to_page_id,
            page_title,
        ) {
            Ok(u) => {
                i = i + 1;
                proof {
                    let csc = spec_convert_node(cs[i - 1], *parent, ctx)->Ok_0;
                    assert(request@ == before + csc);
                    assert(request@.subrange(0, base.len() as int) =~= base);
                    assert(request@.skip(base.len() as int) =~= before.skip(base.len() as int)
                        + csc);
                    assert(convert_seq(cs, *parent, ctx, i - 1, before.skip(base.len() as int))
                        == convert_seq(cs, *parent, ctx, i as int, request@.skip(
                        base.len() as int,
                    )));
                }
            },
            Err(e) => {
                proof {
                    assert(request@.subrange(0, base.len() as int) =~= base);
                }
                return Err(e);
            },
        }
    }
    Ok(())
}

/// The depth-first walk of one node: appends the node's block children
/// to the request. On failure the request keeps what was already
/// appended, but the caller discards it: no partial block tree is ever
/// returned.
pub fn recurse_markdown_tree(
    request: &mut AppendBlockRequest,
    node: &MdNode,
    parent: &MdNode,
    path: &String,
    page_id: &String,
    path_to_page_id: &PathIdMap,
    page_title: &String,
) -> (r: Result<(), NotationError>)
    requires
        path_to_page_id.wf(),
    ensures
        final(request)@.len() >= old(request)@.len(),
        final(request)@.subrange(0, old(request)@.len() as int) == old(request)@,
        ({
            let ctx = Ctx {
                file: path@,
                page_id: page_id@,
                map: path_to_page_id.as_map(),
                title: page_title@,
            };
            match r {
                Ok(u) => (spec_convert_node(*node, *parent, ctx) matches Ok(cs)
                    && final(request)@ == old(request)@ + cs),
                Err(e) => (spec_convert_node(*node, *parent, ctx) matches Err(ev) && err_matches(
                    e,
                    ev,
                    path@,
                )),
            }
        }),
    decreases *node,
{
    let ghost ctx = Ctx {
        file: path@,
        page_id: page_id@,
        map: path_to_page_id.as_map(),
        title: page_title@,
    };
    match node {
        MdNode::Heading { depth, children } => {
            proof {
                assert(decreases_to!(*node => (*node)->Heading_children));
                assert(decreases_to!((*node)->Heading_children => (*node)->Heading_children@));
            }
            recurse_children(
                request,
                children,
                node,
                path,
                page_id,
                path_to_page_id,
                page_title,
            )
        },
        MdNode::List { ordered, children } => {
            match build_list(node, path, page_id, path_to_page_id, page_title) {
                Ok(v) => {
                    request.extend_children(v);
                    Ok(())
                },
                Err(e) => Err(e),
            }
        },
        MdNode::ListItem { children } => {
            proof {
                assert(decreases_to!(*node => (*node)->ListItem_children));
                assert(decreases_to!((*node)->ListItem_children => (*node)->ListItem_children@));
            }
            recurse_children(
                request,
                children,
                parent,
                path,
                page_id,
                path_to_page_id,
                page_title,
            )
        },
        MdNode::Text { value, line } => {
            match parent {
                MdNode::Heading { depth, children } => {
                    request.append_child(
                        AppendBlockRequestChild::new_heading_block(value.clone(), *depth),
                    );
                },
                MdNode::Root { children } => {
                    request.append_child(
                        AppendBlockRequestChild::new_paragraph_block(value.clone()),
                    );
                },
                MdNode::ListItem { children } => {
                    request.append_child(
                        AppendBlockRequestChild::new_bulleted_list_item_block(value.clone()),
                    );
                },
                MdNode::List { ordered, children } => {
                    if *ordered {
                        request.append_child(
                            AppendBlockRequestChild::new_numbered_list_item_block(value.clone()),
                        );
                    } else {
                        request.append_child(
                            AppendBlockRequestChild::new_bulleted_list_item_block(value.clone()),
                        );
                    }
                },
                _ => {},
            }
            Ok(())
        },
        MdNode::Paragraph { children } => {
            match build_paragraph(node, path, page_id, path_to_page_id, page_title) {
                Ok(v) => {
                    request.extend_children(v);
                    Ok(())
                },
                Err(e) => Err(e),
            }
        },
        MdNode::Code { lang, value } => {
            let code_chunks = chunk_code(value.as_str());
            let language = crate::language::parse_code_language(lang);
            request.append_child(
                AppendBlockRequestChild::new_code_block(code_chunks, language),
            );
            Ok(())
        },
        MdNode::Root { children } => {
            proof {
                assert(decreases_to!(*node => (*node)->Root_children));
                assert(decreases_to!((*node)->Root_children => (*node)->Root_children@));
            }
            recurse_children(
                request,
                children,
                node,
                path,
                page_id,
                path_to_page_id,
                page_title,
            )
        },
        MdNode::Table { children } => {
            let v = build_table(node);
            request.extend_children(v);
            Ok(())
        },
        _ => Ok(()),
    }
}


/// The first text run among the given children, scanning from `j`.
pub open spec fn first_text_in(pc: Seq<MdNode>, j: int) -> Option<Seq<char>>
    decreases pc.len() - j when 0 <= j <= pc.len()
{
    if j >= pc.len() {
        Option::None
    } else {
        match pc[j] {
            MdNode::Text { value, line } => Option::Some(value@),
            _ => first_text_in(pc, j + 1),
        }
    }
}

/// Metadata Extraction: the document's overrides come from the first
/// text run of its first child, where that child is a paragraph; the
/// run is tokenized shell-style and parsed against the fixed schema.
/// `None` means the directive was unparseable. A document without such
/// a run has no overrides — that is not an error.
pub open spec fn spec_doc_args(inner: MdNode) -> Option<crate::args::DocArgsV> {
    let cs = md_children(inner);
    if cs.len() > 0 {
        match cs[0] {
            MdNode::Paragraph { children } => match first_text_in(children@, 0) {
                Option::Some(tx) => crate::args::spec_parse_doc_args(
                    crate::args::spec_split_args(tx),
                ),
                Option::None => Option::Some(
                    crate::args::DocArgsV { emoji: Option::None, title: Option::None },
                ),
            },
            _ => Option::Some(
                crate::args::DocArgsV { emoji: Option::None, title: Option::None },
            ),
        }
    } else {
        Option::Some(crate::args::DocArgsV { emoji: Option::None, title: Option::None })
    }
}

/// The title a document's page gets: the override where one was given,
/// else the file stem.
pub open spec fn doc_title(a: crate::args::DocArgsV, file_name: Seq<char>) -> Seq<char> {
    match a.title {
        Option::Some(tx) => tx,
        Option::None => file_name,
    }
}

/// The children a node carries, as an executable borrow.
fn node_children(n: &MdNode) -> (r: Option<&Vec<MdNode>>)
    ensures
        match r {
            Option::Some(v) => md_children(*n) == v@,
            Option::None => md_children(*n) == Seq::<MdNode>::empty(),
        },
{
    match n {
        MdNode::Root { children } => Option::Some(children),
        MdNode::Heading { depth, children } => Option::Some(children),
        MdNode::Paragraph { children } => Option::Some(children),
        MdNode::List { ordered, children } => Option::Some(children),
        MdNode::ListItem { children } => Option::Some(children),
        MdNode::Link { url, children } => Option::Some(children),
        MdNode::Strong { children } => Option::Some(children),
        MdNode::Table { children } => Option::Some(children),
        MdNode::TableRow { children } => Option::Some(children),
        MdNode::TableCell { children } => Option::Some(children),
        _ => Option::None,
    }
}

/// One parsed document: its syntax tree, its source path, and the file
/// stem that names its page when no title override is given.
pub struct NotationParseResult {
    pub inner: MdNode,
    pub path: String,
    pub file_name: String,
}

impl NotationParseResult {
    /// Wraps a parsed tree with its source path; the file stem names the
    /// page by default, and a path without one is rejected.
    pub fn new(n: MdNode, path: String) -> (r: Result<Self, NotationError>)
        ensures
            match r {
                Ok(pr) => pr.inner == n && pr.path@ == path@ && pr.file_name@ == crate::pathmap::spec_stem(
                    crate::pathmap::spec_file_name(path@),
                ) && pr.file_name@.len() > 0,
                Err(e) => crate::pathmap::spec_stem(crate::pathmap::spec_file_name(path@)).len()
                    == 0 && e matches NotationError::Io { .. },
            },
    {
        let base_name = crate::pathmap::file_name_of(path.as_str());
        let file_name = crate::pathmap::stem_of(base_name.as_str());
        if file_name.unicode_len() == 0 {
            Err(NotationError::Io { detail: String::from_str("path has no file name") })
        } else {
            Ok(NotationParseResult { inner: n, path, file_name })
        }
    }

    /// Extracts the document's metadata overrides, or fails with an
    /// error naming the document where the directive is unparseable.
    pub fn get_arguments(&self) -> (r: Result<crate::args::NotationDocArguments, NotationError>)
        ensures
            match r {
                Ok(a) => spec_doc_args(self.inner) == Option::Some(a@),
                Err(e) => spec_doc_args(self.inner) is None && (e matches NotationError::ArgParse {
                    page,
                    ..
                } && page@ == self.path@),
            },
    {
        match node_children(&self.inner) {
            Option::Some(cs) => {
                let ghost csv = cs@;
                if cs.len() > 0 {
                    match &cs[0] {
                        MdNode::Paragraph { children } => {
                            let ghost pcv = children@;
                            let mut j: usize = 0;
                            let m = children.len();
                            while j < m
                                invariant
                                    md_children(self.inner) == csv,
                                    csv.len() > 0,
                                    (csv[0] matches MdNode::Paragraph { children: pch }
                                        && pch@ == pcv),
                                    children@ == pcv,
                                    m == pcv.len(),
                                    j <= m,
                                    first_text_in(pcv, 0) == first_text_in(pcv, j as int),
                                decreases m - j,
                            {
                                match &children[j] {
                                    MdNode::Text { value, line } => {
                                        let tokens = crate::args::split_args(value.as_str());
                                        match crate::args::parse_doc_args(&tokens) {
                                            Option::Some(a) => {
                                                return Ok(a);
                                            },
                                            Option::None => {
                                                return Err(
                                                    NotationError::ArgParse {
                                                        page: self.path.clone(),
                                                        detail: value.clone(),
                                                    },
                                                );
                                            },
                                        }
                                    },
                                    _ => {},
                                }
                                j = j + 1;
                            }
                            Ok(crate::args::NotationDocArguments { emoji: None, title: None })
                        },
                        _ => Ok(
                            crate::args::NotationDocArguments { emoji: None, title: None },
                        ),
                    }
                } else {
                    Ok(crate::args::NotationDocArguments { emoji: None, title: None })
                }
            },
            Option::None => Ok(
                crate::args::NotationDocArguments { emoji: None, title: None },
            ),
        }
    }

    /// Converts the whole document against the completed map: metadata
    /// first (its title override names the page in link targets), then
    /// the depth-first block conversion. No partial block tree is
    /// returned: the first failure aborts the document.
    pub fn to_notion(&self, page_id: &String, path_to_page_id: &PathIdMap) -> (r: Result<
        AppendBlockRequest,
        NotationError,
    >)
        requires
            path_to_page_id.wf(),
        ensures
            ({
                let args = spec_doc_args(self.inner);
                match r {
                    Ok(req) => (args matches Some(a) && spec_convert_node(
                        self.inner,
                        self.inner,
                        Ctx {
                            file: self.path@,
                            page_id: page_id@,
                            map: path_to_page_id.as_map(),
                            title: doc_title(a, self.file_name@),
                        },
                    ) == Ok::<Seq<ChildV>, ConvErr>(req@)),
                    Err(e) => (args is None && (e matches NotationError::ArgParse { page, .. }
                        && page@ == self.path@)) || (args matches Some(a) && (spec_convert_node(
                        self.inner,
                        self.inner,
                        Ctx {
                            file: self.path@,
                            page_id: page_id@,
                            map: path_to_page_id.as_map(),
                            title: doc_title(a, self.file_name@),
                        },
                    ) matches Err(ev) && err_matches(e, ev, self.path@))),
                }
            }),
    {
        let arguments = match self.get_arguments() {
            Ok(a) => a,
            Err(e) => {
                return Err(e);
            },
        };
        let page_title = match arguments.title {
            Option::Some(tx) => tx,
            Option::None => self.file_name.clone(),
        };
        let mut request = AppendBlockRequest::new_children(Vec::new());
        proof {
            assert(request@ =~= Seq::<ChildV>::empty());
        }
        match recurse_markdown_tree(
            &mut request,
            &self.inner,
            &self.inner,
            &self.path,
            page_id,
            path_to_page_id,
            &page_title,
        ) {
            Ok(u) => {
                proof {
                    let ctx = Ctx {
                        file: self.path@,
                        page_id: page_id@,
                        map: path_to_page_id.as_map(),
                        title: page_title@,
                    };
                    assert(request@ =~= Seq::<ChildV>::empty() + spec_convert_node(
                        self.inner,
                        self.inner,
                        ctx,
                    )->Ok_0);
                }
                Ok(request)
            },
            Err(e) => Err(e),
        }
    }
}


/// Plain paragraph text reaches its span with newlines replaced by
/// single spaces and no other character altered: a paragraph of one
/// text run (not a directive line, not whitespace-only) produces exactly
/// one paragraph child of one span, whose content agrees with the source
/// text character for character except that each newline became one
/// space.
pub proof fn lemma_paragraph_newlines(children: Seq<MdNode>, ctx: Ctx)
    requires
        children.len() == 1,
        children[0] matches MdNode::Text { .. },
        !(starts_with_dashes(children[0]->Text_value@) && children[0]->Text_line == Some(1usize)),
        !all_space(children[0]->Text_value@),
    ensures
        spec_build_paragraph(children, ctx) == Ok::<Seq<ChildV>, ConvErr>(
            seq![child_paragraph(seq![span_text(replace_nl(children[0]->Text_value@))])],
        ),
        replace_nl(children[0]->Text_value@).len() == children[0]->Text_value@.len(),
        forall|k: int|
            0 <= k < children[0]->Text_value@.len() ==> replace_nl(children[0]->Text_value@)[k]
                == if children[0]->Text_value@[k] == '\n' {
                ' '
            } else {
                children[0]->Text_value@[k]
            },
{
    let v = children[0]->Text_value@;
    crate::text::lemma_replace_nl_pointwise(v);
    let spans = seq![span_text(replace_nl(v))];
    let seen2 = children[0]->Text_line is Some;
    assert(Seq::<SpanV>::empty().push(span_text(replace_nl(v))) =~= spans);
    assert(para_from(children, ctx, 0, Seq::<SpanV>::empty(), Seq::<ChildV>::empty(), false)
        == para_from(children, ctx, 1, spans, Seq::<ChildV>::empty(), seen2));
    assert(para_from(children, ctx, 1, spans, Seq::<ChildV>::empty(), seen2) == Ok::<
        Seq<ChildV>,
        ConvErr,
    >(Seq::<ChildV>::empty().push(child_paragraph(spans))));
    assert(Seq::<ChildV>::empty().push(child_paragraph(spans)) =~= seq![child_paragraph(spans)]);
}

/// The metadata directive line contributes no content: a text run that
/// opens with the two-dash marker on the document's first source line is
/// dropped by the paragraph walk, leaving spans, sealed children and
/// state exactly as they were.
pub proof fn lemma_directive_line_dropped(
    children: Seq<MdNode>,
    ctx: Ctx,
    i: int,
    spans: Seq<SpanV>,
    out: Seq<ChildV>,
    seen: bool,
)
    requires
        0 <= i < children.len(),
        children[i] matches MdNode::Text { .. },
        starts_with_dashes(children[i]->Text_value@),
        children[i]->Text_line == Some(1usize),
    ensures
        para_from(children, ctx, i, spans, out, seen) == para_from(
            children,
            ctx,
            i + 1,
            spans,
            out,
            seen,
        ),
{
}

/// An image after accumulated text seals exactly two block children, in
/// order: first the paragraph of the text seen so far, then the image
/// itself — never one merged block — and the span run starts afresh.
pub proof fn lemma_image_seals_paragraph(
    children: Seq<MdNode>,
    ctx: Ctx,
    i: int,
    spans: Seq<SpanV>,
    out: Seq<ChildV>,
    seen: bool,
)
    requires
        0 <= i < children.len(),
        children[i] matches MdNode::Image { .. },
        spans.len() > 0,
        url_ok(children[i]->Image_url@),
    ensures
        para_from(children, ctx, i, spans, out, seen) == para_from(
            children,
            ctx,
            i + 1,
            Seq::<SpanV>::empty(),
            out.push(child_paragraph(spans)).push(child_image(children[i]->Image_url@)),
            seen,
        ),
{
}

} // verus!
