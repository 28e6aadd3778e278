//! The library's model of a parsed concrete syntax tree.
//!
//! A tree is a rooted, ordered tree over byte ranges of the source text; each
//! node carries a kind label and a byte range. The stripping engine treats it
//! as read-only input describing structure. Trees are produced by the external
//! parsing library and converted into this shape at the trust boundary.

use vstd::prelude::*;

verus! {

/// One node of a syntax tree: a kind label, a byte range into the source
/// text, and the child nodes in source order.
#[derive(Debug)]
pub struct SyntaxNode {
    pub kind: String,
    pub start: usize,
    pub end: usize,
    pub children: Vec<SyntaxNode>,
}

/// Well-formedness of a node against a source text of `limit` bytes: the
/// node's span lies within the text and child spans are nested, ordered and
/// pairwise disjoint. This is what the parsing library guarantees of a tree
/// parsed from exactly that text.
pub open spec fn wf_node(n: SyntaxNode, limit: nat) -> bool
    decreases n,
{
    &&& n.start <= n.end
    &&& n.end <= limit
    &&& wf_siblings(n.children@, n.start as int, n.end as int, limit)
}

/// Well-formedness of a sequence of siblings whose spans must lie within
/// `[lo, hi]`, in order and without overlap.
pub open spec fn wf_siblings(s: Seq<SyntaxNode>, lo: int, hi: int, limit: nat) -> bool
    decreases s,
{
    s.len() == 0 || {
        &&& lo <= s[0].start
        &&& s[0].end <= hi
        &&& wf_node(s[0], limit)
        &&& wf_siblings(s.drop_first(), s[0].end as int, hi, limit)
    }
}

/// Whether `kind` is one of the comment node kinds in `kinds`.
pub open spec fn is_comment_kind(kinds: Seq<String>, kind: Seq<char>) -> bool {
    exists|i: int| 0 <= i < kinds.len() && kinds[i]@ == kind
}

/// The byte spans of the maximal comment nodes of `n`, in source order. The
/// traversal does not descend into a comment node, so nested comment-like
/// structure below one never contributes a span.
pub open spec fn comment_spans(n: SyntaxNode, kinds: Seq<String>) -> Seq<(usize, usize)>
    decreases n,
{
    if is_comment_kind(kinds, n.kind@) {
        seq![(n.start, n.end)]
    } else {
        sibling_comment_spans(n.children@, kinds)
    }
}

/// The comment spans of a sequence of siblings, concatenated in order.
pub open spec fn sibling_comment_spans(s: Seq<SyntaxNode>, kinds: Seq<String>) -> Seq<
    (usize, usize),
>
    decreases s,
{
    if s.len() == 0 {
        Seq::empty()
    } else {
        comment_spans(s[0], kinds) + sibling_comment_spans(s.drop_first(), kinds)
    }
}

/// A list of spans is ordered, pairwise disjoint, and contained in
/// `[lo, limit]`.
pub open spec fn spans_ok(spans: Seq<(usize, usize)>, lo: int, limit: int) -> bool
    decreases spans,
{
    spans.len() == 0 || {
        &&& lo <= spans[0].0
        &&& spans[0].0 <= spans[0].1
        &&& spans[0].1 <= limit
        &&& spans_ok(spans.drop_first(), spans[0].1 as int, limit)
    }
}

/// Number of nodes in a tree; the termination measure of the iterative
/// traversal.
pub open spec fn node_count(n: SyntaxNode) -> nat
    decreases n,
{
    1 + sibling_count(n.children@)
}

/// Total number of nodes in a forest.
pub open spec fn sibling_count(s: Seq<SyntaxNode>) -> nat
    decreases s,
{
    if s.len() == 0 {
        0
    } else {
        node_count(s[0]) + sibling_count(s.drop_first())
    }
}

pub proof fn lemma_spans_ok_weaken(spans: Seq<(usize, usize)>, lo: int, limit: int, lo2: int, limit2: int)
    requires
        spans_ok(spans, lo, limit),
        lo2 <= lo,
        limit <= limit2,
    ensures
        spans_ok(spans, lo2, limit2),
    decreases spans,
{
    if spans.len() != 0 {
        lemma_spans_ok_weaken(spans.drop_first(), spans[0].1 as int, limit, spans[0].1 as int, limit2);
    }
}

pub proof fn lemma_spans_ok_concat(a: Seq<(usize, usize)>, b: Seq<(usize, usize)>, lo: int, mid: int, limit: int)
    requires
        spans_ok(a, lo, mid),
        spans_ok(b, mid, limit),
        lo <= mid,
        mid <= limit,
    ensures
        spans_ok(a + b, lo, limit),
    decreases a,
{
    if a.len() == 0 {
        assert(a + b =~= b);
        lemma_spans_ok_weaken(b, mid, limit, lo, limit);
    } else {
        lemma_spans_ok_concat(a.drop_first(), b, a[0].1 as int, mid, limit);
        assert((a + b)[0] == a[0]);
        assert((a + b).drop_first() =~= a.drop_first() + b);
        assert(spans_ok((a + b).drop_first(), (a + b)[0].1 as int, limit));
        assert(lo <= (a + b)[0].0 && (a + b)[0].0 <= (a + b)[0].1 && (a + b)[0].1 <= limit);
    }
}

/// The spans collected from a well-formed node are ordered, disjoint, and
/// contained in the node's own span.
pub proof fn lemma_comment_spans_wf(n: SyntaxNode, kinds: Seq<String>, limit: nat)
    requires
        wf_node(n, limit),
    ensures
        spans_ok(comment_spans(n, kinds), n.start as int, n.end as int),
    decreases n,
{
    if is_comment_kind(kinds, n.kind@) {
        let s = comment_spans(n, kinds);
        assert(s[0] == (n.start, n.end));
        assert(s.drop_first() =~= Seq::<(usize, usize)>::empty());
        assert(spans_ok(s.drop_first(), s[0].1 as int, n.end as int));
    } else {
        lemma_sibling_spans_wf(n.children@, kinds, n.start as int, n.end as int, limit);
    }
}

/// The spans collected from a well-formed forest are ordered, disjoint, and
/// contained in `[lo, hi]`.
pub proof fn lemma_sibling_spans_wf(s: Seq<SyntaxNode>, kinds: Seq<String>, lo: int, hi: int, limit: nat)
    requires
        wf_siblings(s, lo, hi, limit),
        lo <= hi,
    ensures
        spans_ok(sibling_comment_spans(s, kinds), lo, hi),
    decreases s,
{
    if s.len() != 0 {
        assert(wf_node(s[0], limit));
        assert(s[0].start <= s[0].end);
        assert(lo <= s[0].end);
        lemma_comment_spans_wf(s[0], kinds, limit);
        lemma_spans_ok_weaken(
            comment_spans(s[0], kinds),
            s[0].start as int,
            s[0].end as int,
            lo,
            s[0].end as int,
        );
        lemma_sibling_spans_wf(s.drop_first(), kinds, s[0].end as int, hi, limit);
        lemma_spans_ok_concat(
            comment_spans(s[0], kinds),
            sibling_comment_spans(s.drop_first(), kinds),
            lo,
            s[0].end as int,
            hi,
        );
    }
}

/// Whether `kind` is one of the comment node kinds in `kinds`, executably.
pub fn kind_in(kinds: &Vec<String>, kind: &String) -> (r: bool)
    ensures
        r == is_comment_kind(kinds@, kind@),
{
    let mut j: usize = 0;
    while j < kinds.len()
        invariant
            j <= kinds.len(),
            forall|i: int| 0 <= i < j ==> kinds@[i]@ != kind@,
        decreases kinds.len() - j,
    {
        if kinds[j].eq(kind) {
            return true;
        }
        j += 1;
    }
    false
}


proof fn lemma_node_count_le_sibling_count(s: Seq<SyntaxNode>, i: int)
    requires
        0 <= i < s.len(),
    ensures
        node_count(s[i]) <= sibling_count(s),
    decreases s,
{
    if i == 0 {
        assert(sibling_count(s) == node_count(s[0]) + sibling_count(s.drop_first()));
        lemma_sibling_count_nonneg(s.drop_first());
    } else {
        lemma_node_count_le_sibling_count(s.drop_first(), i - 1);
        assert(s.drop_first()[i - 1] == s[i]);
    }
}

proof fn lemma_sibling_count_nonneg(s: Seq<SyntaxNode>)
    ensures
        sibling_count(s) >= 0,
    decreases s,
{
    if s.len() != 0 {
        lemma_sibling_count_nonneg(s.drop_first());
    }
}

/// Checks that a node is well formed against a text of `limit` bytes, so
/// nothing downstream has to take the parser's structure on faith.
pub fn check_wf_node(n: &SyntaxNode, limit: usize) -> (r: bool)
    ensures
        r == wf_node(*n, limit as nat),
    decreases node_count(*n), 0nat,
{
    if !(n.start <= n.end && n.end <= limit) {
        return false;
    }
    check_wf_siblings(&n.children, n.start, n.end, limit)
}

/// Checks that sibling spans stay within `[lo, hi]`, in order and without
/// overlap, and that each sibling is well formed.
pub fn check_wf_siblings(s: &Vec<SyntaxNode>, lo: usize, hi: usize, limit: usize) -> (r: bool)
    ensures
        r == wf_siblings(s@, lo as int, hi as int, limit as nat),
    decreases sibling_count(s@), 1nat,
{
    let mut i: usize = 0;
    let mut prev: usize = lo;
    proof {
        assert(s@.skip(0) =~= s@);
    }
    while i < s.len()
        invariant
            i <= s@.len(),
            wf_siblings(s@, lo as int, hi as int, limit as nat) == wf_siblings(
                s@.skip(i as int),
                prev as int,
                hi as int,
                limit as nat,
            ),
        decreases s@.len() - i,
    {
        let ghost tail = s@.skip(i as int);
        proof {
            assert(tail.len() > 0);
            assert(tail[0] == s@[i as int]);
            assert(tail.drop_first() =~= s@.skip(i as int + 1));
            lemma_node_count_le_sibling_count(s@, i as int);
        }
        if !(prev <= s[i].start && s[i].end <= hi) {
            return false;
        }
        if !check_wf_node(&s[i], limit) {
            return false;
        }
        prev = s[i].end;
        i += 1;
    }
    proof {
        assert(s@.skip(s@.len() as int) =~= Seq::<SyntaxNode>::empty());
    }
    true
}

/// The comment spans of the forest suffix `s[i..]`.
pub open spec fn suffix_comment_spans(s: Seq<SyntaxNode>, i: int, kinds: Seq<String>) -> Seq<
    (usize, usize),
> {
    sibling_comment_spans(s.skip(i), kinds)
}

proof fn lemma_sibling_spans_skip(s: Seq<SyntaxNode>, i: int, kinds: Seq<String>)
    requires
        0 <= i < s.len(),
    ensures
        sibling_comment_spans(s.skip(i), kinds) == comment_spans(s[i], kinds)
            + sibling_comment_spans(s.skip(i + 1), kinds),
{
    assert(s.skip(i).len() > 0);
    assert(s.skip(i)[0] == s[i]);
    assert(s.skip(i).drop_first() =~= s.skip(i + 1));
}

proof fn lemma_sibling_count_skip(s: Seq<SyntaxNode>, i: int)
    requires
        0 <= i < s.len(),
    ensures
        sibling_count(s.skip(i)) == node_count(s[i]) + sibling_count(s.skip(i + 1)),
{
    assert(s.skip(i).len() > 0);
    assert(s.skip(i)[0] == s[i]);
    assert(s.skip(i).drop_first() =~= s.skip(i + 1));
}

/// The comment spans still to be emitted by the nodes on the traversal
/// stack, top of stack first.
pub open spec fn stack_spans(st: Seq<&SyntaxNode>, kinds: Seq<String>) -> Seq<(usize, usize)>
    decreases st,
{
    if st.len() == 0 {
        Seq::empty()
    } else {
        comment_spans(*st.last(), kinds) + stack_spans(st.drop_last(), kinds)
    }
}

/// The total number of unvisited nodes below the traversal stack.
pub open spec fn stack_count(st: Seq<&SyntaxNode>) -> nat
    decreases st,
{
    if st.len() == 0 {
        0
    } else {
        node_count(*st.last()) + stack_count(st.drop_last())
    }
}

/// Collects the byte spans of all maximal comment nodes, in source order,
/// with a single pre-order pass that never descends into a comment node.
/// The traversal is iterative, with an explicit stack, so its depth is not
/// bounded by the call stack on pathologically deep trees.
pub fn collect_comment_spans(root: &SyntaxNode, kinds: &Vec<String>) -> (spans: Vec<
    (usize, usize),
>)
    ensures
        spans@ == comment_spans(*root, kinds@),
{
    let mut spans: Vec<(usize, usize)> = Vec::new();
    let mut stack: Vec<&SyntaxNode> = Vec::new();
    stack.push(root);
    proof {
        reveal_with_fuel(stack_spans, 2);
        assert(stack@.drop_last() =~= Seq::<&SyntaxNode>::empty());
        assert(spans@ + stack_spans(stack@, kinds@) =~= comment_spans(*root, kinds@));
    }
    while stack.len() != 0
        invariant
            spans@ + stack_spans(stack@, kinds@) == comment_spans(*root, kinds@),
        decreases stack_count(stack@),
    {
        let ghost old_stack = stack@;
        let n: &SyntaxNode = stack.pop().unwrap();
        proof {
            assert(old_stack.last() == n);
            assert(stack@ =~= old_stack.drop_last());
        }
        if kind_in(kinds, &n.kind) {
            let ghost old_spans = spans@;
            spans.push((n.start, n.end));
            proof {
                assert(comment_spans(*n, kinds@) =~= seq![(n.start, n.end)]);
                assert(stack_spans(old_stack, kinds@) == comment_spans(*n, kinds@) + stack_spans(
                    stack@,
                    kinds@,
                ));
                assert(spans@ =~= old_spans + seq![(n.start, n.end)]);
                assert(spans@ + stack_spans(stack@, kinds@) =~= old_spans + stack_spans(
                    old_stack,
                    kinds@,
                ));
            }
        } else {
            let ghost rest = stack@;
            proof {
                assert(stack_spans(old_stack, kinds@) == comment_spans(*n, kinds@) + stack_spans(
                    rest,
                    kinds@,
                ));
            }
            let mut i: usize = n.children.len();
            proof {
                assert(n.children@.skip(n.children@.len() as int) =~= Seq::<SyntaxNode>::empty());
                assert(suffix_comment_spans(n.children@, i as int, kinds@) + stack_spans(
                    rest,
                    kinds@,
                ) =~= stack_spans(rest, kinds@));
            }
            while i > 0
                invariant
                    i <= n.children.len(),
                    stack_spans(stack@, kinds@) == suffix_comment_spans(n.children@, i as int, kinds@)
                        + stack_spans(rest, kinds@),
                    stack_count(stack@) == sibling_count(n.children@.skip(i as int)) + stack_count(rest),
                    spans@ + (comment_spans(*n, kinds@) + stack_spans(rest, kinds@)) == comment_spans(
                        *root,
                        kinds@,
                    ),
                decreases i,
            {
                i -= 1;
                let ghost before = stack@;
                stack.push(&n.children[i]);
                proof {
                    assert(stack@.last() == &n.children@[i as int]);
                    assert(stack@.drop_last() =~= before);
                    lemma_sibling_spans_skip(n.children@, i as int, kinds@);
                    lemma_sibling_count_skip(n.children@, i as int);
                    assert(stack_spans(stack@, kinds@) == comment_spans(n.children@[i as int], kinds@)
                        + stack_spans(before, kinds@));
                    assert(stack_spans(stack@, kinds@) =~= suffix_comment_spans(
                        n.children@,
                        i as int,
                        kinds@,
                    ) + stack_spans(rest, kinds@));
                }
            }
            proof {
                assert(n.children@.skip(0) =~= n.children@);
                assert(suffix_comment_spans(n.children@, 0, kinds@) == sibling_comment_spans(
                    n.children@,
                    kinds@,
                ));
                assert(comment_spans(*n, kinds@) == sibling_comment_spans(n.children@, kinds@));
                assert(stack_spans(stack@, kinds@) == comment_spans(*n, kinds@) + stack_spans(
                    rest,
                    kinds@,
                ));
                assert(spans@ + stack_spans(stack@, kinds@) == comment_spans(*root, kinds@));
            }
        }
    }
    proof {
        assert(spans@ + stack_spans(stack@, kinds@) =~= spans@);
    }
    spans
}

} // verus!
