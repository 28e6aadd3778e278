//! The comment-stripping engine.
//!
//! Given a syntax tree, a language's comment node kinds and the source text,
//! the engine excises every maximal comment node's byte span and replaces it
//! with a run of newlines equal to the newlines the span contained, in a
//! single left-to-right pass over a running buffer with cumulative offset
//! correction as the buffer shrinks. The output keeps the line count of the
//! input; all non-comment text is preserved byte-for-byte and in order.

use vstd::prelude::*;

use crate::languages::LanguageDefinition;
use crate::syntax_tree::SyntaxNode;
use crate::syntax_tree::collect_comment_spans;
use crate::syntax_tree::comment_spans;
use crate::syntax_tree::is_comment_kind;
use crate::syntax_tree::kind_in;
use crate::syntax_tree::lemma_comment_spans_wf;
use crate::syntax_tree::lemma_spans_ok_weaken;
use crate::syntax_tree::spans_ok;
use crate::syntax_tree::wf_node;

verus! {

/// The newline byte. Source text must use this newline convention only (no
/// carriage returns).
pub const NEWLINE: u8 = 10;

/// Number of newline bytes in `s`: the line count measure that stripping
/// preserves.
pub open spec fn count_newlines(s: Seq<u8>) -> nat
    decreases s,
{
    if s.len() == 0 {
        0
    } else {
        count_newlines(s.drop_last()) + if s.last() == NEWLINE {
            1nat
        } else {
            0nat
        }
    }
}

/// A run of `n` newline bytes.
pub open spec fn newline_run(n: nat) -> Seq<u8> {
    Seq::new(n, |i: int| NEWLINE)
}

/// The stripped form of `text[pos..]` under the given comment spans: the
/// text between spans unchanged, each span replaced by a newline run that
/// counts the span's newlines.
pub open spec fn stripped_from(text: Seq<u8>, spans: Seq<(usize, usize)>, pos: int) -> Seq<u8>
    decreases spans,
{
    if spans.len() == 0 {
        text.subrange(pos, text.len() as int)
    } else {
        text.subrange(pos, spans[0].0 as int) + newline_run(
            count_newlines(text.subrange(spans[0].0 as int, spans[0].1 as int)),
        ) + stripped_from(text, spans.drop_first(), spans[0].1 as int)
    }
}

/// The stripped form of a whole text.
pub open spec fn stripped_text(text: Seq<u8>, spans: Seq<(usize, usize)>) -> Seq<u8> {
    stripped_from(text, spans, 0)
}

/// Whether position `i` lies strictly inside one of the spans.
pub open spec fn in_any_span(spans: Seq<(usize, usize)>, i: int) -> bool {
    exists|k: int| 0 <= k < spans.len() && (#[trigger] spans[k]).0 <= i < spans[k].1
}

pub proof fn lemma_count_newlines_le_len(s: Seq<u8>)
    ensures
        count_newlines(s) <= s.len(),
    decreases s,
{
    if s.len() != 0 {
        lemma_count_newlines_le_len(s.drop_last());
    }
}

pub proof fn lemma_count_newlines_concat(a: Seq<u8>, b: Seq<u8>)
    ensures
        count_newlines(a + b) == count_newlines(a) + count_newlines(b),
    decreases b,
{
    if b.len() == 0 {
        assert(a + b =~= a);
    } else {
        assert((a + b).drop_last() =~= a + b.drop_last());
        assert((a + b).last() == b.last());
        lemma_count_newlines_concat(a, b.drop_last());
    }
}

pub proof fn lemma_count_newline_run(n: nat)
    ensures
        count_newlines(newline_run(n)) == n,
    decreases n,
{
    if n == 0 {
        assert(newline_run(0).len() == 0);
    } else {
        assert(newline_run(n).drop_last() =~= newline_run((n - 1) as nat));
        assert(newline_run(n).last() == NEWLINE);
        lemma_count_newline_run((n - 1) as nat);
    }
}

/// Splitting a subrange splits its newline count.
pub proof fn lemma_count_newlines_split(s: Seq<u8>, a: int, b: int, c: int)
    requires
        0 <= a <= b <= c <= s.len(),
    ensures
        count_newlines(s.subrange(a, c)) == count_newlines(s.subrange(a, b)) + count_newlines(
            s.subrange(b, c),
        ),
{
    assert(s.subrange(a, c) =~= s.subrange(a, b) + s.subrange(b, c));
    lemma_count_newlines_concat(s.subrange(a, b), s.subrange(b, c));
}

/// Every span starts no earlier than `lo`, is ordered, and ends within
/// `limit`.
pub proof fn lemma_spans_ok_bounds(spans: Seq<(usize, usize)>, lo: int, limit: int)
    requires
        spans_ok(spans, lo, limit),
    ensures
        forall|k: int|
            0 <= k < spans.len() ==> lo <= #[trigger] spans[k].0 && spans[k].0 <= spans[k].1
                && spans[k].1 <= limit,
        forall|k: int| 0 <= k < spans.len() - 1 ==> #[trigger] spans[k].1 <= spans[k + 1].0,
    decreases spans,
{
    if spans.len() != 0 {
        lemma_spans_ok_bounds(spans.drop_first(), spans[0].1 as int, limit);
        assert forall|k: int|
            0 <= k < spans.len() implies lo <= #[trigger] spans[k].0 && spans[k].0 <= spans[k].1
            && spans[k].1 <= limit by {
            if k > 0 {
                assert(spans.drop_first()[k - 1] == spans[k]);
            }
        }
        assert forall|k: int| 0 <= k < spans.len() - 1 implies #[trigger] spans[k].1 <= spans[k
            + 1].0 by {
            if k > 0 {
                assert(spans.drop_first()[k - 1] == spans[k]);
                assert(spans.drop_first()[k] == spans[k + 1]);
            } else {
                if spans.len() > 1 {
                    assert(spans.drop_first()[0] == spans[1]);
                }
            }
        }
    }
}

/// Line-count invariant: the stripped form of `text[pos..]` has exactly as
/// many newlines as `text[pos..]` itself.
pub proof fn lemma_stripped_preserves_newlines(text: Seq<u8>, spans: Seq<(usize, usize)>, pos: int)
    requires
        spans_ok(spans, pos, text.len() as int),
        0 <= pos,
    ensures
        count_newlines(stripped_from(text, spans, pos)) == count_newlines(
            text.subrange(pos, text.len() as int),
        ),
    decreases spans,
{
    if spans.len() != 0 {
        let s0 = spans[0].0 as int;
        let e0 = spans[0].1 as int;
        let a = text.subrange(pos, s0);
        let b = newline_run(count_newlines(text.subrange(s0, e0)));
        let c = stripped_from(text, spans.drop_first(), e0);
        lemma_stripped_preserves_newlines(text, spans.drop_first(), e0);
        lemma_count_newlines_concat(a + b, c);
        lemma_count_newlines_concat(a, b);
        lemma_count_newline_run(count_newlines(text.subrange(s0, e0)));
        lemma_count_newlines_split(text, pos, s0, text.len() as int);
        lemma_count_newlines_split(text, s0, e0, text.len() as int);
    }
}

/// Whether byte value `b` occurs in `text[pos..]` outside every span.
pub open spec fn byte_from_outside(
    text: Seq<u8>,
    spans: Seq<(usize, usize)>,
    pos: int,
    b: u8,
) -> bool {
    exists|i: int| pos <= i < text.len() && !in_any_span(spans, i) && text[i] == b
}

/// No-comment-content leak: every byte of the stripped output is either the
/// synthesized newline padding or a byte that stands in the input outside
/// every comment span. Nothing that lay strictly inside a comment span
/// survives, except as newline padding.
pub proof fn lemma_no_comment_content_leak(text: Seq<u8>, spans: Seq<(usize, usize)>, pos: int)
    requires
        spans_ok(spans, pos, text.len() as int),
        0 <= pos <= text.len(),
    ensures
        forall|j: int|
            0 <= j < stripped_from(text, spans, pos).len() && #[trigger] stripped_from(
                text,
                spans,
                pos,
            )[j] != NEWLINE ==> byte_from_outside(text, spans, pos, stripped_from(text, spans, pos)[j]),
    decreases spans,
{
    let out = stripped_from(text, spans, pos);
    if spans.len() == 0 {
        assert(out =~= text.subrange(pos, text.len() as int));
        assert forall|j: int| 0 <= j < out.len() && #[trigger] out[j] != NEWLINE implies
            byte_from_outside(text, spans, pos, out[j]) by {
            assert(out[j] == text.subrange(pos, text.len() as int)[j]);
            assert(out[j] == text[pos + j]);
            assert(!in_any_span(spans, pos + j));
        }
    } else {
        let s0 = spans[0].0 as int;
        let e0 = spans[0].1 as int;
        let a = text.subrange(pos, s0);
        let b = newline_run(count_newlines(text.subrange(s0, e0)));
        let c = stripped_from(text, spans.drop_first(), e0);
        lemma_no_comment_content_leak(text, spans.drop_first(), e0);
        lemma_spans_ok_bounds(spans, pos, text.len() as int);
        lemma_spans_ok_bounds(spans.drop_first(), e0, text.len() as int);
        assert forall|j: int| 0 <= j < out.len() && #[trigger] out[j] != NEWLINE implies
            byte_from_outside(text, spans, pos, out[j]) by {
            if j < a.len() {
                let i = pos + j;
                assert(out[j] == a[j]);
                assert(a[j] == text[i]);
                assert forall|k: int| 0 <= k < spans.len() implies !((#[trigger] spans[k]).0 <= i
                    < spans[k].1) by {
                    if k > 0 {
                        assert(spans.drop_first()[k - 1] == spans[k]);
                        assert(e0 <= spans.drop_first()[k - 1].0);
                    }
                    assert(i < spans[k].0);
                }
                assert(!in_any_span(spans, i));
            } else if j < a.len() + b.len() {
                assert(out[j] == b[j - a.len()]);
                assert(out[j] == NEWLINE);
            } else {
                let jc = j - a.len() - b.len();
                assert(out[j] == c[jc]);
                assert(byte_from_outside(text, spans.drop_first(), e0, c[jc]));
                let i = choose|i: int|
                    e0 <= i < text.len() && !in_any_span(spans.drop_first(), i) && text[i] == c[jc];
                assert forall|k: int| 0 <= k < spans.len() implies !((#[trigger] spans[k]).0 <= i
                    < spans[k].1) by {
                    if k > 0 {
                        assert(spans.drop_first()[k - 1] == spans[k]);
                        assert(!in_any_span(spans.drop_first(), i));
                    }
                }
                assert(!in_any_span(spans, i));
                assert(pos <= i < text.len() && text[i] == out[j]);
            }
        }
    }
}

/// No-comment-content leak, stated at the engine's interface: of what
/// `strip_comments` returns for a well-formed tree, every byte is either
/// newline padding or occurs in the source outside every comment span.
pub proof fn lemma_strip_comments_no_leak(tree: SyntaxNode, kinds: Seq<String>, text: Seq<u8>)
    requires
        wf_node(tree, text.len() as nat),
    ensures
        forall|j: int|
            0 <= j < stripped_text(text, comment_spans(tree, kinds)).len()
                && #[trigger] stripped_text(text, comment_spans(tree, kinds))[j] != NEWLINE
                ==> byte_from_outside(
                text,
                comment_spans(tree, kinds),
                0,
                stripped_text(text, comment_spans(tree, kinds))[j],
            ),
{
    lemma_comment_spans_wf(tree, kinds, text.len() as nat);
    lemma_spans_ok_weaken(
        comment_spans(tree, kinds),
        tree.start as int,
        tree.end as int,
        0,
        text.len() as int,
    );
    lemma_no_comment_content_leak(text, comment_spans(tree, kinds), 0);
}

/// Determines if a node kind denotes a comment for the given language.
pub fn is_comment(language_definition: &LanguageDefinition, kind: &String) -> (r: bool)
    ensures
        r == is_comment_kind(language_definition.comment_node_types@, kind@),
{
    kind_in(&language_definition.comment_node_types, kind)
}

/// Generates the bytes that can replace the comment span `[start, end)`.
/// This is guaranteed to contain the same number of newlines as the span.
pub fn comment_replacement(source_code: &Vec<u8>, start: usize, end: usize) -> (r: Vec<u8>)
    requires
        start <= end <= source_code@.len(),
    ensures
        r@ == newline_run(count_newlines(source_code@.subrange(start as int, end as int))),
{
    let mut count: usize = 0;
    let mut i: usize = start;
    while i < end
        invariant
            start <= i <= end <= source_code@.len(),
            count == count_newlines(source_code@.subrange(start as int, i as int)),
            count <= i - start,
        decreases end - i,
    {
        let ghost prev = source_code@.subrange(start as int, i as int);
        if source_code[i] == NEWLINE {
            count += 1;
        }
        i += 1;
        proof {
            assert(source_code@.subrange(start as int, i as int).drop_last() =~= prev);
            assert(source_code@.subrange(start as int, i as int).last() == source_code@[i - 1]);
        }
    }
    let mut r: Vec<u8> = Vec::new();
    let mut j: usize = 0;
    while j < count
        invariant
            j <= count,
            r@ =~= newline_run(j as nat),
        decreases count - j,
    {
        r.push(NEWLINE);
        j += 1;
        proof {
            assert(r@ =~= newline_run(j as nat));
        }
    }
    proof {
        assert(r@ =~= newline_run(count as nat));
    }
    r
}

/// Replaces `v[start..end]` by `repl`, keeping everything around it.
fn replace_range_bytes(v: &Vec<u8>, start: usize, end: usize, repl: &Vec<u8>) -> (r: Vec<u8>)
    requires
        start <= end <= v@.len(),
    ensures
        r@ == v@.subrange(0, start as int) + repl@ + v@.subrange(end as int, v@.len() as int),
{
    let mut r: Vec<u8> = Vec::new();
    r.extend_from_slice(vstd::slice::slice_subrange(v.as_slice(), 0, start));
    r.extend_from_slice(repl.as_slice());
    r.extend_from_slice(vstd::slice::slice_subrange(v.as_slice(), end, v.len()));
    proof {
        assert(r@ =~= v@.subrange(0, start as int) + repl@ + v@.subrange(
            end as int,
            v@.len() as int,
        ));
    }
    r
}

/// The end of span `i - 1`, or the start of the text for `i == 0`: where the
/// unprocessed tail of the running buffer begins after `i` replacements.
pub open spec fn prev_end(spans: Seq<(usize, usize)>, i: int) -> int {
    if i == 0 {
        0
    } else {
        spans[i - 1].1 as int
    }
}

/// The stripped output accumulated after the first `i` spans are replaced:
/// everything of `text` before the end of span `i - 1`, with those spans
/// replaced by their newline runs.
pub open spec fn stripped_prefix(text: Seq<u8>, spans: Seq<(usize, usize)>, i: int) -> Seq<u8>
    decreases i,
{
    if i <= 0 {
        Seq::empty()
    } else {
        stripped_prefix(text, spans, i - 1) + text.subrange(
            prev_end(spans, i - 1),
            spans[i - 1].0 as int,
        ) + newline_run(count_newlines(text.subrange(spans[i - 1].0 as int, spans[i - 1].1 as int)))
    }
}

/// The whole stripped text decomposes into the prefix for the first `i`
/// spans followed by the stripped form of the rest.
proof fn lemma_stripped_decompose(text: Seq<u8>, spans: Seq<(usize, usize)>, i: int)
    requires
        spans_ok(spans, 0, text.len() as int),
        0 <= i <= spans.len(),
    ensures
        stripped_from(text, spans, 0) == stripped_prefix(text, spans, i) + stripped_from(
            text,
            spans.skip(i),
            prev_end(spans, i),
        ),
    decreases i,
{
    if i == 0 {
        assert(spans.skip(0) =~= spans);
        assert(stripped_prefix(text, spans, 0) + stripped_from(text, spans, 0) =~= stripped_from(
            text,
            spans,
            0,
        ));
    } else {
        lemma_stripped_decompose(text, spans, i - 1);
        let tail = spans.skip(i - 1);
        assert(tail[0] == spans[i - 1]);
        assert(tail.drop_first() =~= spans.skip(i));
        let a = text.subrange(prev_end(spans, i - 1), spans[i - 1].0 as int);
        let b = newline_run(
            count_newlines(text.subrange(spans[i - 1].0 as int, spans[i - 1].1 as int)),
        );
        let c = stripped_from(text, spans.skip(i), prev_end(spans, i));
        assert(stripped_from(text, tail, prev_end(spans, i - 1)) == a + b + c);
        assert(stripped_prefix(text, spans, i - 1) + (a + b + c) =~= (stripped_prefix(
            text,
            spans,
            i - 1,
        ) + a + b) + c);
    }
}

/// Replaces each span of `source_code` by its newline run, left to right,
/// splicing into a running buffer whose byte positions are adjusted by the
/// total number of bytes removed so far.
fn strip_spans(source_code: &Vec<u8>, spans: &Vec<(usize, usize)>) -> (r: Vec<u8>)
    requires
        spans_ok(spans@, 0, source_code@.len() as int),
    ensures
        r@ == stripped_from(source_code@, spans@, 0),
{
    let ghost text = source_code@;
    let mut result: Vec<u8> = source_code.clone();
    let mut truncate_offset: usize = 0;
    let mut i: usize = 0;
    proof {
        lemma_spans_ok_bounds(spans@, 0, text.len() as int);
        assert(result@ =~= stripped_prefix(text, spans@, 0) + text.subrange(
            prev_end(spans@, 0),
            text.len() as int,
        ));
    }
    while i < spans.len()
        invariant
            spans_ok(spans@, 0, text.len() as int),
            text == source_code@,
            i <= spans@.len(),
            stripped_prefix(text, spans@, i as int).len() + truncate_offset == prev_end(
                spans@,
                i as int,
            ),
            0 <= prev_end(spans@, i as int) <= text.len(),
            result@ == stripped_prefix(text, spans@, i as int) + text.subrange(
                prev_end(spans@, i as int),
                text.len() as int,
            ),
        decreases spans@.len() - i,
    {
        proof {
            lemma_spans_ok_bounds(spans@, 0, text.len() as int);
        }
        let (start, end) = spans[i];
        proof {
            if i > 0 {
                assert(spans@[i as int - 1].1 <= spans@[i as int].0);
            }
            assert(prev_end(spans@, i as int) <= start);
            assert(start <= end <= text.len());
        }
        let replacement = comment_replacement(source_code, start, end);
        proof {
            lemma_count_newlines_le_len(text.subrange(start as int, end as int));
        }
        let new_start = start - truncate_offset;
        let new_end = end - truncate_offset;
        let ghost old_result = result@;
        let ghost prefix = stripped_prefix(text, spans@, i as int);
        result = replace_range_bytes(&result, new_start, new_end, &replacement);
        proof {
            assert(old_result.subrange(0, new_start as int) =~= prefix + text.subrange(
                prev_end(spans@, i as int),
                start as int,
            ));
            assert(old_result.subrange(new_end as int, old_result.len() as int) =~= text.subrange(
                end as int,
                text.len() as int,
            ));
            assert(result@ =~= (prefix + text.subrange(prev_end(spans@, i as int), start as int)
                + replacement@) + text.subrange(end as int, text.len() as int));
            assert(stripped_prefix(text, spans@, i as int + 1) == prefix + text.subrange(
                prev_end(spans@, i as int),
                start as int,
            ) + replacement@);
        }
        truncate_offset = truncate_offset + (end - start) - replacement.len();
        i += 1;
    }
    proof {
        lemma_stripped_decompose(text, spans@, spans@.len() as int);
        assert(spans@.skip(spans@.len() as int) =~= Seq::<(usize, usize)>::empty());
        assert(result@ =~= stripped_from(text, spans@, 0));
    }
    result
}

/// Strips comments from the source code.
///
/// The input must use `\n` newlines only, and the tree must describe exactly
/// this text (which is what `wf_node` captures of it). The result is the
/// source with every maximal comment span replaced by its newline run; it
/// has the same newline count as the input, and a source with no comment
/// nodes comes back unchanged.
pub fn strip_comments(
    tree: &SyntaxNode,
    language_definition: &LanguageDefinition,
    source_code: &Vec<u8>,
) -> (r: Vec<u8>)
    requires
        wf_node(*tree, source_code@.len() as nat),
    ensures
        r@ == stripped_text(
            source_code@,
            comment_spans(*tree, language_definition.comment_node_types@),
        ),
        count_newlines(r@) == count_newlines(source_code@),
        comment_spans(*tree, language_definition.comment_node_types@).len() == 0 ==> r@
            == source_code@,
{
    let spans = collect_comment_spans(tree, &language_definition.comment_node_types);
    proof {
        lemma_comment_spans_wf(
            *tree,
            language_definition.comment_node_types@,
            source_code@.len() as nat,
        );
        lemma_spans_ok_weaken(
            spans@,
            tree.start as int,
            tree.end as int,
            0,
            source_code@.len() as int,
        );
        lemma_stripped_preserves_newlines(source_code@, spans@, 0);
        assert(source_code@.subrange(0, source_code@.len() as int) =~= source_code@);
    }
    strip_spans(source_code, &spans)
}

} // verus!
