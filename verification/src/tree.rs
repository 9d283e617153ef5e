use vstd::prelude::*;
use crate::types::{Comment, CommentView, comment_view, comment_seq_view, lemma_comment_seq_view};

verus! {

// ---------------------------------------------------------------------------
// The reconstruction algorithm, at the specification level
// ---------------------------------------------------------------------------

/// `parent` with `child` appended to its sub-replies.
pub open spec fn spec_attach(parent: CommentView, child: CommentView) -> CommentView {
    CommentView {
        id: parent.id,
        depth: parent.depth,
        age: parent.age,
        username: parent.username,
        content_html: parent.content_html,
        children: parent.children.push(child),
        upvote: parent.upvote,
        downvote: parent.downvote,
    }
}

/// Pop the stack while its top is at least `d` deep. Each popped comment
/// becomes the last child of the entry below it; with nothing below, it
/// becomes the next root.
pub open spec fn spec_pop_ge(
    roots: Seq<CommentView>,
    stack: Seq<CommentView>,
    d: int,
) -> (Seq<CommentView>, Seq<CommentView>)
    decreases stack.len(),
{
    if stack.len() == 0 || (stack.last().depth as int) < d {
        (roots, stack)
    } else {
        let top = stack.last();
        let rest = stack.drop_last();
        if rest.len() == 0 {
            spec_pop_ge(roots.push(top), rest, d)
        } else {
            spec_pop_ge(roots, rest.update(rest.len() - 1, spec_attach(rest.last(), top)), d)
        }
    }
}

/// Process `input[i..]`: for each comment, pop everything at least as
/// deep, then push the comment; at the end, drain the stack. The roots
/// gathered along the way are the forest, in document order.
pub open spec fn spec_build_loop(
    input: Seq<CommentView>,
    i: int,
    roots: Seq<CommentView>,
    stack: Seq<CommentView>,
) -> Seq<CommentView>
    decreases input.len() - i,
{
    if i < 0 || i >= input.len() {
        spec_pop_ge(roots, stack, 0).0
    } else {
        let popped = spec_pop_ge(roots, stack, input[i].depth as int);
        spec_build_loop(input, i + 1, popped.0, popped.1.push(input[i]))
    }
}

/// The forest reconstructed from a flat comment sequence: each comment
/// becomes a child of the nearest preceding comment of smaller depth
/// (for well-formed inputs, exactly one less), and a comment with no such
/// predecessor becomes a root. Document order is preserved throughout.
pub open spec fn spec_build_tree(input: Seq<CommentView>) -> Seq<CommentView> {
    spec_build_loop(input, 0, Seq::empty(), Seq::empty())
}

// ---------------------------------------------------------------------------
// The executable reconstruction
// ---------------------------------------------------------------------------

fn pop_ge(roots: &mut Vec<Comment>, stack: &mut Vec<Comment>, d: u32)
    ensures
        comment_seq_view(final(roots)@) == spec_pop_ge(
            comment_seq_view(old(roots)@),
            comment_seq_view(old(stack)@),
            d as int,
        ).0,
        comment_seq_view(final(stack)@) == spec_pop_ge(
            comment_seq_view(old(roots)@),
            comment_seq_view(old(stack)@),
            d as int,
        ).1,
{
    broadcast use lemma_comment_seq_view;

    let ghost rv0 = comment_seq_view(old(roots)@);
    let ghost sv0 = comment_seq_view(old(stack)@);
    while stack.len() > 0 && stack[stack.len() - 1].depth >= d
        invariant
            spec_pop_ge(comment_seq_view(roots@), comment_seq_view(stack@), d as int)
                == spec_pop_ge(rv0, sv0, d as int),
        decreases stack@.len(),
    {
        let ghost rv = comment_seq_view(roots@);
        let ghost sv = comment_seq_view(stack@);
        proof {
            lemma_comment_seq_view(stack@);
            lemma_comment_seq_view(roots@);
            assert(sv.last() == comment_view(stack@.last()));
            assert(sv.last().depth >= d);
        }
        let top = stack.pop().unwrap();
        proof {
            lemma_comment_seq_view(stack@);
            assert(comment_seq_view(stack@) =~= sv.drop_last());
            assert(sv.last() == comment_view(top));
        }
        if stack.len() == 0 {
            roots.push(top);
            proof {
                lemma_comment_seq_view(roots@);
                assert(comment_seq_view(roots@) =~= rv.push(comment_view(top)));
                assert(sv.drop_last().len() == 0);
            }
        } else {
            let ghost rest = sv.drop_last();
            let mut parent = stack.pop().unwrap();
            proof {
                lemma_comment_seq_view(stack@);
                assert(comment_seq_view(stack@) =~= rest.drop_last());
                assert(rest.last() == comment_view(parent));
            }
            let ghost pv = comment_view(parent);
            let ghost kids = parent.children@;
            parent.children.push(top);
            proof {
                lemma_comment_seq_view(kids);
                lemma_comment_seq_view(parent.children@);
                assert(parent.children@.drop_last() =~= kids);
                assert(comment_seq_view(parent.children@) =~= comment_seq_view(kids).push(
                    comment_view(top),
                ));
                assert(comment_view(parent) == spec_attach(pv, comment_view(top)));
            }
            stack.push(parent);
            proof {
                lemma_comment_seq_view(stack@);
                assert(comment_seq_view(stack@) =~= rest.drop_last().push(
                    spec_attach(rest.last(), comment_view(top)),
                ));
                assert(rest.drop_last().push(spec_attach(rest.last(), comment_view(top)))
                    =~= rest.update(rest.len() - 1, spec_attach(rest.last(), comment_view(top))));
            }
        }
    }
    proof {
        lemma_comment_seq_view(roots@);
        lemma_comment_seq_view(stack@);
        let rvf = comment_seq_view(roots@);
        let svf = comment_seq_view(stack@);
        if svf.len() > 0 {
            assert(svf.last() == comment_view(stack@.last()));
            assert((svf.last().depth as int) < d);
        }
        assert(spec_pop_ge(rvf, svf, d as int) == (rvf, svf));
    }
}

/// Reconstruct the comment forest from the flat, depth-tagged sequence.
/// Each comment becomes a child of the nearest preceding shallower
/// comment; with none (a root-level comment, or a first comment of
/// non-zero depth, which is tolerated as a root), it becomes a root.
/// Sibling order follows document order.
pub fn build_tree(input: Vec<Comment>) -> (r: Vec<Comment>)
    ensures
        comment_seq_view(r@) == spec_build_tree(comment_seq_view(input@)),
{
    broadcast use lemma_comment_seq_view;

    let ghost iv = comment_seq_view(input@);
    let mut rest = input;
    let mut roots: Vec<Comment> = Vec::new();
    let mut stack: Vec<Comment> = Vec::new();
    proof {
        assert(comment_seq_view(roots@) =~= Seq::<CommentView>::empty());
        assert(comment_seq_view(stack@) =~= Seq::<CommentView>::empty());
        assert(iv.skip(0) =~= iv);
    }
    let ghost k: int = 0;
    while rest.len() > 0
        invariant
            0 <= k <= iv.len(),
            comment_seq_view(rest@) == iv.skip(k),
            spec_build_loop(iv, k, comment_seq_view(roots@), comment_seq_view(stack@))
                == spec_build_tree(iv),
        decreases rest@.len(),
    {
        let ghost restv = comment_seq_view(rest@);
        let ghost rest0 = rest@;
        let c = rest.remove(0);
        proof {
            lemma_comment_seq_view(rest0);
            lemma_comment_seq_view(rest@);
            assert(comment_seq_view(rest@) =~= restv.skip(1));
            assert(restv[0] == comment_view(c));
            assert(restv.skip(1) =~= iv.skip(k + 1));
            assert(iv[k] == comment_view(c));
        }
        pop_ge(&mut roots, &mut stack, c.depth);
        let ghost sv2 = comment_seq_view(stack@);
        let ghost spre = stack@;
        stack.push(c);
        proof {
            lemma_comment_seq_view(spre);
            lemma_comment_seq_view(stack@);
            assert(comment_seq_view(stack@) =~= sv2.push(comment_view(c)));
        }
        proof {
            k = k + 1;
        }
    }
    proof {
        assert(comment_seq_view(rest@).len() == 0);
        assert(k == iv.len());
    }
    pop_ge(&mut roots, &mut stack, 0);
    roots
}

// ---------------------------------------------------------------------------
// Laws of the reconstruction
// ---------------------------------------------------------------------------

/// `c` with its sub-replies removed, as the assemblers delivered it.
pub open spec fn strip(c: CommentView) -> CommentView {
    CommentView {
        id: c.id,
        depth: c.depth,
        age: c.age,
        username: c.username,
        content_html: c.content_html,
        children: Seq::empty(),
        upvote: c.upvote,
        downvote: c.downvote,
    }
}

/// Pre-order traversal of one tree: the node itself (stripped of its
/// sub-replies), then its sub-replies in order.
pub open spec fn flat_tree(c: CommentView) -> Seq<CommentView>
    decreases c,
{
    seq![strip(c)] + flat_forest(c.children)
}

/// Pre-order traversal of a forest, tree by tree.
pub open spec fn flat_forest(s: Seq<CommentView>) -> Seq<CommentView>
    decreases s,
{
    if s.len() == 0 {
        Seq::empty()
    } else {
        flat_tree(s[0]) + flat_forest(s.skip(1))
    }
}

/// Every comment in the sequence is childless, as the assemblers leave
/// them before reconstruction.
pub open spec fn childless(s: Seq<CommentView>) -> bool {
    forall|j: int| 0 <= j < s.len() ==> (#[trigger] s[j]).children.len() == 0
}

/// Each sub-reply sits exactly one level below its parent, recursively.
pub open spec fn wf_tree(c: CommentView) -> bool
    decreases c,
{
    forall|j: int|
        0 <= j < c.children.len() ==> ((#[trigger] c.children[j]).depth == c.depth + 1 && wf_tree(
            c.children[j],
        ))
}

/// Every root sits at depth 0 and every tree is well-nested.
pub open spec fn wf_forest(s: Seq<CommentView>) -> bool {
    forall|j: int| 0 <= j < s.len() ==> ((#[trigger] s[j]).depth == 0 && wf_tree(s[j]))
}

/// The depth sequence forms a valid forest: the first comment is a root
/// and no comment is more than one level deeper than its predecessor.
pub open spec fn valid_depths(s: Seq<CommentView>) -> bool {
    (s.len() > 0 ==> s[0].depth == 0) && (forall|j: int|
        1 <= j < s.len() ==> (#[trigger] s[j]).depth <= s[j - 1].depth + 1)
}

proof fn lemma_flat_forest_push(s: Seq<CommentView>, c: CommentView)
    ensures
        flat_forest(s.push(c)) == flat_forest(s) + flat_tree(c),
    decreases s,
{
    if s.len() == 0 {
        reveal_with_fuel(flat_forest, 2);
        assert(s.push(c)[0] == c);
        assert(s.push(c).skip(1) =~= Seq::<CommentView>::empty());
        assert(flat_forest(s.push(c)) =~= flat_forest(s) + flat_tree(c));
    } else {
        assert(s.push(c)[0] == s[0]);
        assert(s.push(c).skip(1) =~= s.skip(1).push(c));
        lemma_flat_forest_push(s.skip(1), c);
        assert(flat_forest(s.push(c)) =~= flat_forest(s) + flat_tree(c));
    }
}

proof fn lemma_attach_flat(p: CommentView, c: CommentView)
    ensures
        flat_tree(spec_attach(p, c)) == flat_tree(p) + flat_tree(c),
{
    lemma_flat_forest_push(p.children, c);
    assert(strip(spec_attach(p, c)) == strip(p));
    assert(flat_tree(spec_attach(p, c)) =~= flat_tree(p) + flat_tree(c));
}

proof fn lemma_pop_ge_flat(roots: Seq<CommentView>, stack: Seq<CommentView>, d: int)
    ensures
        flat_forest(spec_pop_ge(roots, stack, d).0) + flat_forest(spec_pop_ge(roots, stack, d).1)
            == flat_forest(roots) + flat_forest(stack),
    decreases stack.len(),
{
    if stack.len() == 0 || (stack.last().depth as int) < d {
    } else {
        let top = stack.last();
        let rest = stack.drop_last();
        assert(stack =~= rest.push(top));
        lemma_flat_forest_push(rest, top);
        if rest.len() == 0 {
            lemma_pop_ge_flat(roots.push(top), rest, d);
            lemma_flat_forest_push(roots, top);
            assert(flat_forest(roots.push(top)) + flat_forest(rest) =~= flat_forest(roots)
                + flat_forest(stack));
        } else {
            let rest2 = rest.update(rest.len() - 1, spec_attach(rest.last(), top));
            lemma_pop_ge_flat(roots, rest2, d);
            assert(rest2 =~= rest.drop_last().push(spec_attach(rest.last(), top)));
            lemma_flat_forest_push(rest.drop_last(), spec_attach(rest.last(), top));
            lemma_attach_flat(rest.last(), top);
            assert(rest =~= rest.drop_last().push(rest.last()));
            lemma_flat_forest_push(rest.drop_last(), rest.last());
            assert(flat_forest(roots) + flat_forest(rest2) =~= flat_forest(roots)
                + flat_forest(stack));
        }
    }
}

proof fn lemma_pop_ge_drains(roots: Seq<CommentView>, stack: Seq<CommentView>)
    ensures
        spec_pop_ge(roots, stack, 0).1.len() == 0,
    decreases stack.len(),
{
    if stack.len() > 0 {
        let top = stack.last();
        let rest = stack.drop_last();
        if rest.len() == 0 {
            lemma_pop_ge_drains(roots.push(top), rest);
        } else {
            lemma_pop_ge_drains(roots, rest.update(rest.len() - 1, spec_attach(rest.last(), top)));
        }
    }
}

proof fn lemma_build_loop_flat(
    input: Seq<CommentView>,
    i: int,
    roots: Seq<CommentView>,
    stack: Seq<CommentView>,
)
    requires
        0 <= i <= input.len(),
    ensures
        flat_forest(spec_build_loop(input, i, roots, stack)) == flat_forest(roots) + flat_forest(
            stack,
        ) + flat_forest(input.skip(i)),
    decreases input.len() - i,
{
    if i == input.len() {
        lemma_pop_ge_flat(roots, stack, 0);
        lemma_pop_ge_drains(roots, stack);
        assert(flat_forest(spec_pop_ge(roots, stack, 0).1) =~= Seq::<CommentView>::empty());
        assert(input.skip(i) =~= Seq::<CommentView>::empty());
        assert(flat_forest(spec_build_loop(input, i, roots, stack)) =~= flat_forest(roots)
            + flat_forest(stack) + flat_forest(input.skip(i)));
    } else {
        let c = input[i];
        let popped = spec_pop_ge(roots, stack, c.depth as int);
        lemma_pop_ge_flat(roots, stack, c.depth as int);
        lemma_build_loop_flat(input, i + 1, popped.0, popped.1.push(c));
        lemma_flat_forest_push(popped.1, c);
        assert(input.skip(i)[0] == c);
        assert(input.skip(i).skip(1) =~= input.skip(i + 1));
        assert(flat_forest(input.skip(i)) == flat_tree(c) + flat_forest(input.skip(i + 1)));
        assert(flat_forest(spec_build_loop(input, i, roots, stack)) =~= flat_forest(roots)
            + flat_forest(stack) + flat_forest(input.skip(i)));
    }
}

proof fn lemma_flat_childless(s: Seq<CommentView>)
    requires
        childless(s),
    ensures
        flat_forest(s) == s,
    decreases s,
{
    if s.len() > 0 {
        assert(s[0].children =~= Seq::<CommentView>::empty());
        assert(flat_forest(s[0].children) =~= Seq::<CommentView>::empty());
        assert(strip(s[0]) == s[0]);
        assert(flat_tree(s[0]) =~= seq![s[0]]);
        assert(childless(s.skip(1)));
        lemma_flat_childless(s.skip(1));
        assert(flat_forest(s) =~= s);
    }
}

/// Reconstruction preserves document order: the pre-order traversal of
/// the forest built from a flat, childless comment sequence reproduces
/// that sequence exactly.
pub proof fn lemma_build_tree_order(input: Seq<CommentView>)
    requires
        childless(input),
    ensures
        flat_forest(spec_build_tree(input)) == input,
{
    lemma_build_loop_flat(input, 0, Seq::empty(), Seq::empty());
    assert(input.skip(0) =~= input);
    lemma_flat_childless(input);
    assert(flat_forest(Seq::<CommentView>::empty()) =~= Seq::<CommentView>::empty());
    assert(flat_forest(spec_build_tree(input)) =~= input);
}

proof fn lemma_attach_wf(p: CommentView, c: CommentView)
    requires
        wf_tree(p),
        wf_tree(c),
        c.depth == p.depth + 1,
    ensures
        wf_tree(spec_attach(p, c)),
{
    let a = spec_attach(p, c);
    assert forall|j: int| 0 <= j < a.children.len() implies (#[trigger] a.children[j]).depth
        == a.depth + 1 && wf_tree(a.children[j]) by {
        if j < p.children.len() {
            assert(a.children[j] == p.children[j]);
        } else {
            assert(a.children[j] == c);
        }
    }
}

proof fn lemma_pop_ge_wf(roots: Seq<CommentView>, stack: Seq<CommentView>, d: int)
    requires
        d >= 0,
        wf_forest(roots),
        forall|j: int|
            0 <= j < stack.len() ==> ((#[trigger] stack[j]).depth == j && wf_tree(stack[j])),
    ensures
        wf_forest(spec_pop_ge(roots, stack, d).0),
        spec_pop_ge(roots, stack, d).1.len() == (if d <= stack.len() {
            d
        } else {
            stack.len() as int
        }),
        forall|j: int|
            0 <= j < spec_pop_ge(roots, stack, d).1.len() ==> ((#[trigger] spec_pop_ge(
                roots,
                stack,
                d,
            ).1[j]).depth == j && wf_tree(spec_pop_ge(roots, stack, d).1[j])),
    decreases stack.len(),
{
    if stack.len() == 0 || (stack.last().depth as int) < d {
    } else {
        let top = stack.last();
        let rest = stack.drop_last();
        assert(top.depth == stack.len() - 1);
        if rest.len() == 0 {
            assert(top.depth == 0);
            assert(wf_forest(roots.push(top)));
            lemma_pop_ge_wf(roots.push(top), rest, d);
        } else {
            let parent = rest.last();
            assert(parent.depth == rest.len() - 1);
            lemma_attach_wf(parent, top);
            let rest2 = rest.update(rest.len() - 1, spec_attach(parent, top));
            assert(forall|j: int|
                0 <= j < rest2.len() ==> ((#[trigger] rest2[j]).depth == j && wf_tree(rest2[j])));
            lemma_pop_ge_wf(roots, rest2, d);
        }
    }
}

proof fn lemma_build_loop_wf(
    input: Seq<CommentView>,
    i: int,
    roots: Seq<CommentView>,
    stack: Seq<CommentView>,
)
    requires
        0 <= i <= input.len(),
        valid_depths(input),
        childless(input),
        wf_forest(roots),
        forall|j: int|
            0 <= j < stack.len() ==> ((#[trigger] stack[j]).depth == j && wf_tree(stack[j])),
        i == 0 ==> stack.len() == 0,
        i > 0 ==> stack.len() == input[i - 1].depth + 1,
    ensures
        wf_forest(spec_build_loop(input, i, roots, stack)),
    decreases input.len() - i,
{
    if i == input.len() {
        lemma_pop_ge_wf(roots, stack, 0);
    } else {
        let c = input[i];
        let d = c.depth as int;
        lemma_pop_ge_wf(roots, stack, d);
        let popped = spec_pop_ge(roots, stack, d);
        assert(c.children.len() == 0);
        assert(wf_tree(c));
        if i == 0 {
            assert(c.depth == 0);
            assert(popped.1.len() == 0);
        } else {
            assert(d <= stack.len());
            assert(popped.1.len() == d);
        }
        assert(forall|j: int|
            0 <= j < popped.1.push(c).len() ==> ((#[trigger] popped.1.push(c)[j]).depth == j
                && wf_tree(popped.1.push(c)[j])));
        lemma_build_loop_wf(input, i + 1, popped.0, popped.1.push(c));
    }
}

/// Reconstruction restores the nesting the depths describe: for a valid
/// flat comment sequence, every comment in the forest sits exactly one
/// level below its parent, and every root sits at depth 0.
pub proof fn lemma_build_tree_depths(input: Seq<CommentView>)
    requires
        childless(input),
        valid_depths(input),
    ensures
        wf_forest(spec_build_tree(input)),
{
    lemma_build_loop_wf(input, 0, Seq::empty(), Seq::empty());
}

} // verus!
