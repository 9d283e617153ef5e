use vstd::prelude::*;
use crate::dom::{
    Element, Node, Query, spec_has_class, spec_find, spec_select_scoped, has_class, find_first,
    select_scoped, opt_el_view,
};
use crate::errors::{ParseError, ParseErrorView, missing_view};
use crate::extract::{
    q_class, q_classes, spec_id_of, spec_story_link_of, spec_username_of, spec_score_of,
    spec_comment_count_of, spec_upvote_of, spec_downvote_of, spec_derive_vote, spec_age_of,
    spec_depth_of, spec_content_of, spec_comment_votes, extract_id, extract_story_link,
    extract_username, score_of, extract_comment_count, extract_upvote, extract_downvote,
    derive_vote, extract_age, extract_depth, extract_content_html, extract_comment_votes,
};
use crate::tree::{spec_build_tree, build_tree};
use crate::types::{
    Post, PostView, Comment, CommentView, comment_seq_view, post_seq_view, lemma_comment_seq_view,
    lemma_post_seq_view,
};

verus! {

// ---------------------------------------------------------------------------
// Assembling one post from a listing row and its action row
// ---------------------------------------------------------------------------

pub open spec fn lift_post(r: Result<Post, ParseError>) -> Result<PostView, ParseErrorView> {
    match r {
        Result::Ok(p) => Result::Ok(p@),
        Result::Err(e) => Result::Err(e@),
    }
}

/// One listing post from its row and the following action row. The
/// identifier and the story link are mandatory; the action row itself is
/// mandatory; score and comment count degrade to 0 and the username to a
/// sentinel when missing or malformed. The comment list of a listing
/// record is empty.
pub open spec fn spec_assemble_post(row: Element, action: Option<Element>) -> Result<
    PostView,
    ParseErrorView,
> {
    match spec_id_of(row) {
        Result::Err(e) => Result::Err(e),
        Result::Ok(id) => match spec_story_link_of(row) {
            Result::Err(e) => Result::Err(e),
            Result::Ok(tu) => match action {
                Option::None => Result::Err(missing_view("action_row"@)),
                Option::Some(ar) => Result::Ok(
                    PostView {
                        id: id,
                        title: tu.0,
                        url: tu.1,
                        username: match spec_username_of(ar) {
                            Result::Ok(u) => u,
                            Result::Err(_) => "<unknown>"@,
                        },
                        score: match spec_score_of(ar) {
                            Result::Ok(v) => v,
                            Result::Err(_) => 0,
                        },
                        comment_count: match spec_comment_count_of(ar) {
                            Result::Ok(v) => v,
                            Result::Err(_) => 0,
                        },
                        comments: Seq::empty(),
                        vote: spec_derive_vote(spec_upvote_of(row), spec_downvote_of(ar)),
                    },
                ),
            },
        },
    }
}

/// Build one listing post; mandatory fields abort, the rest degrade.
pub fn assemble_post(row: &Element, action: Option<&Element>) -> (r: Result<Post, ParseError>)
    ensures
        lift_post(r) == spec_assemble_post(*row, opt_el_view(action)),
{
    let id = match extract_id(row) {
        Ok(v) => v,
        Err(e) => {
            return Err(e);
        },
    };
    let (title, url) = match extract_story_link(row) {
        Ok(v) => v,
        Err(e) => {
            return Err(e);
        },
    };
    let ar = match action {
        Some(a) => a,
        None => {
            return Err(ParseError::missing("action_row"));
        },
    };
    let upvote = extract_upvote(row);
    let downvote = extract_downvote(ar);
    let vote = derive_vote(upvote, downvote);
    let comment_count = match extract_comment_count(ar) {
        Ok(v) => v,
        Err(_) => 0,
    };
    let score = match score_of(ar) {
        Ok(v) => v,
        Err(_) => 0,
    };
    let username = match extract_username(ar) {
        Ok(u) => u,
        Err(_) => "<unknown>".to_owned(),
    };
    let p = Post { id, title, url, username, score, comment_count, comments: Vec::new(), vote };
    proof {
        assert(comment_seq_view(p.comments@) =~= Seq::<CommentView>::empty());
    }
    Ok(p)
}

// ---------------------------------------------------------------------------
// Assembling one comment
// ---------------------------------------------------------------------------

pub open spec fn lift_comment(r: Result<Comment, ParseError>) -> Result<
    CommentView,
    ParseErrorView,
> {
    match r {
        Result::Ok(c) => Result::Ok(c@),
        Result::Err(e) => Result::Err(e@),
    }
}

/// One comment from its element. Username, identifier, depth, age and
/// body are all mandatory: any failure aborts this comment's assembly.
/// The sub-reply list is left empty; populating it is tree
/// reconstruction's job.
pub open spec fn spec_assemble_comment(el: Element) -> Result<CommentView, ParseErrorView> {
    match spec_username_of(el) {
        Result::Err(e) => Result::Err(e),
        Result::Ok(username) => match spec_id_of(el) {
            Result::Err(e) => Result::Err(e),
            Result::Ok(id) => match spec_depth_of(el) {
                Result::Err(e) => Result::Err(e),
                Result::Ok(depth) => match spec_age_of(el) {
                    Result::Err(e) => Result::Err(e),
                    Result::Ok(age) => match spec_content_of(el) {
                        Result::Err(e) => Result::Err(e),
                        Result::Ok(content_html) => Result::Ok(
                            CommentView {
                                id: id,
                                depth: depth,
                                age: age,
                                username: username,
                                content_html: content_html,
                                children: Seq::empty(),
                                upvote: spec_comment_votes(el).0,
                                downvote: spec_comment_votes(el).1,
                            },
                        ),
                    },
                },
            },
        },
    }
}

/// Build one comment; every field but the votes is mandatory.
pub fn assemble_comment(el: &Element) -> (r: Result<Comment, ParseError>)
    ensures
        lift_comment(r) == spec_assemble_comment(*el),
{
    let username = match extract_username(el) {
        Ok(v) => v,
        Err(e) => {
            return Err(e);
        },
    };
    let id = match extract_id(el) {
        Ok(v) => v,
        Err(e) => {
            return Err(e);
        },
    };
    let depth = match extract_depth(el) {
        Ok(v) => v,
        Err(e) => {
            return Err(e);
        },
    };
    let age = match extract_age(el) {
        Ok(v) => v,
        Err(e) => {
            return Err(e);
        },
    };
    let content_html = match extract_content_html(el) {
        Ok(v) => v,
        Err(e) => {
            return Err(e);
        },
    };
    let (upvote, downvote) = extract_comment_votes(el);
    let c = Comment { id, depth, age, username, content_html, children: Vec::new(), upvote, downvote };
    proof {
        assert(comment_seq_view(c.children@) =~= Seq::<CommentView>::empty());
    }
    Ok(c)
}

// ---------------------------------------------------------------------------
// The listing page: rows paired with their action rows
// ---------------------------------------------------------------------------

/// The element at `s[j]`, if `j` is in range and the node is an element.
pub open spec fn next_el(s: Seq<Node>, j: int) -> Option<Element> {
    if 0 <= j < s.len() {
        match s[j] {
            Node::El(a) => Option::Some(a),
            Node::Txt(_) => Option::None,
        }
    } else {
        Option::None
    }
}

/// Every listing row among `s[i..]` and their descendants, in document
/// order, each paired with its immediately following sibling node when
/// that node is an element (the action row).
pub open spec fn spec_rows_in(s: Seq<Node>, i: int) -> Seq<(Element, Option<Element>)>
    decreases s, s.len() - i,
{
    if i < 0 || i >= s.len() {
        Seq::empty()
    } else {
        (match s[i] {
            Node::Txt(_) => Seq::empty(),
            Node::El(e) => (if spec_has_class(e, "athing"@) {
                seq![(e, next_el(s, i + 1))]
            } else {
                Seq::empty()
            }) + spec_rows_in(e.children@, 0),
        }) + spec_rows_in(s, i + 1)
    }
}

/// The listing rows of a document, with their action rows.
pub open spec fn spec_rows(doc: Element) -> Seq<(Element, Option<Element>)> {
    spec_rows_in(doc.children@, 0)
}

fn rows_in<'a>(s: &'a Vec<Node>, i: usize, out: &mut Vec<(&'a Element, Option<&'a Element>)>)
    requires
        i <= s@.len(),
    ensures
        final(out)@.len() == old(out)@.len() + spec_rows_in(s@, i as int).len(),
        forall|j: int| 0 <= j < old(out)@.len() ==> final(out)@[j] == old(out)@[j],
        forall|j: int|
            0 <= j < spec_rows_in(s@, i as int).len() ==> *final(out)@[old(out)@.len() + j].0
                == spec_rows_in(s@, i as int)[j].0 && opt_el_view(
                final(out)@[old(out)@.len() + j].1,
            ) == spec_rows_in(s@, i as int)[j].1,
    decreases *s, s@.len() - i,
{
    proof {
        reveal_strlit("athing");
    }
    if i < s.len() {
        match &s[i] {
            Node::Txt(_) => {},
            Node::El(e) => {
                if has_class(e, "athing") {
                    let nxt: Option<&Element> = if i + 1 < s.len() {
                        match &s[i + 1] {
                            Node::El(a) => Some(a),
                            Node::Txt(_) => None,
                        }
                    } else {
                        None
                    };
                    out.push((e, nxt));
                }
                rows_in(&e.children, 0, out);
            },
        }
        rows_in(s, i + 1, out);
    }
}

// ---------------------------------------------------------------------------
// The listing page, assembled
// ---------------------------------------------------------------------------

/// Assemble every pair of `pairs[k..]` in order; the first failing row
/// aborts the whole listing.
pub open spec fn spec_posts_from(pairs: Seq<(Element, Option<Element>)>, k: int) -> Result<
    Seq<PostView>,
    ParseErrorView,
>
    decreases pairs.len() - k,
{
    if k < 0 || k >= pairs.len() {
        Result::Ok(Seq::empty())
    } else {
        match spec_assemble_post(pairs[k].0, pairs[k].1) {
            Result::Err(e) => Result::Err(e),
            Result::Ok(p) => match spec_posts_from(pairs, k + 1) {
                Result::Err(e) => Result::Err(e),
                Result::Ok(rest) => Result::Ok(seq![p] + rest),
            },
        }
    }
}

/// The listing a document yields: one post per listing row, in document
/// order, or the first row's failure.
pub open spec fn spec_parse_list(doc: Element) -> Result<Seq<PostView>, ParseErrorView> {
    spec_posts_from(spec_rows(doc), 0)
}

pub open spec fn lift_posts(r: Result<Vec<Post>, ParseError>) -> Result<
    Seq<PostView>,
    ParseErrorView,
> {
    match r {
        Result::Ok(v) => Result::Ok(post_seq_view(v@)),
        Result::Err(e) => Result::Err(e@),
    }
}

/// Map a listing document to its posts: one per listing row, in document
/// order; assembly is all-or-nothing, so one corrupt row aborts the whole
/// listing with its error.
pub fn parse_list(doc: &Element) -> (r: Result<Vec<Post>, ParseError>)
    ensures
        lift_posts(r) == spec_parse_list(*doc),
{
    let mut pairs: Vec<(&Element, Option<&Element>)> = Vec::new();
    rows_in(&doc.children, 0, &mut pairs);
    let ghost prs = spec_rows(*doc);
    let mut out: Vec<Post> = Vec::new();
    proof {
        lemma_post_seq_view(out@);
        assert(post_seq_view(out@) =~= Seq::<PostView>::empty());
        match spec_posts_from(prs, 0) {
            Result::Ok(rest) => {
                assert(Seq::<PostView>::empty() + rest =~= rest);
            },
            Result::Err(_) => {},
        }
    }
    let mut k: usize = 0;
    while k < pairs.len()
        invariant
            k <= pairs@.len(),
            prs == spec_rows(*doc),
            pairs@.len() == prs.len(),
            forall|j: int|
                0 <= j < prs.len() ==> *pairs@[j].0 == prs[j].0 && opt_el_view(pairs@[j].1)
                    == prs[j].1,
            match spec_posts_from(prs, k as int) {
                Result::Ok(rest) => spec_posts_from(prs, 0) == Result::<
                    Seq<PostView>,
                    ParseErrorView,
                >::Ok(post_seq_view(out@) + rest),
                Result::Err(e) => spec_posts_from(prs, 0) == Result::<Seq<PostView>, ParseErrorView>::Err(e),
            },
        decreases pairs@.len() - k,
    {
        let (row, action) = pairs[k];
        match assemble_post(row, action) {
            Err(e) => {
                return Err(e);
            },
            Ok(p) => {
                let ghost out0 = out@;
                out.push(p);
                proof {
                    lemma_post_seq_view(out0);
                    lemma_post_seq_view(out@);
                    assert(post_seq_view(out@) =~= post_seq_view(out0).push(p@));
                    match spec_posts_from(prs, k + 1) {
                        Result::Ok(rest) => {
                            assert(post_seq_view(out0) + (seq![p@] + rest) =~= post_seq_view(out@)
                                + rest);
                        },
                        Result::Err(_) => {},
                    }
                }
            },
        }
        k = k + 1;
    }
    proof {
        assert(post_seq_view(out@) + Seq::<PostView>::empty() =~= post_seq_view(out@));
    }
    Ok(out)
}

// ---------------------------------------------------------------------------
// The submission page, assembled
// ---------------------------------------------------------------------------

/// Assemble every comment element of `sel[k..]` in order; the first
/// failing comment aborts the whole submission.
pub open spec fn spec_comments_from(sel: Seq<Element>, k: int) -> Result<
    Seq<CommentView>,
    ParseErrorView,
>
    decreases sel.len() - k,
{
    if k < 0 || k >= sel.len() {
        Result::Ok(Seq::empty())
    } else {
        match spec_assemble_comment(sel[k]) {
            Result::Err(e) => Result::Err(e),
            Result::Ok(c) => match spec_comments_from(sel, k + 1) {
                Result::Err(e) => Result::Err(e),
                Result::Ok(rest) => Result::Ok(seq![c] + rest),
            },
        }
    }
}

/// The flat comment sequence of a submission document: every comment
/// element below any comment-tree container, in document order, each
/// assembled; a document without such containers has no comments.
pub open spec fn spec_comments_flat(doc: Element) -> Result<Seq<CommentView>, ParseErrorView> {
    spec_comments_from(
        spec_select_scoped(doc, q_class("comment-tree"@), q_classes("athing"@, "comtr"@)),
        0,
    )
}

/// The record a submission document yields: the header's title, link and
/// comment count are mandatory, its username and score degrade to the
/// sentinel and 0 as on a listing row, and the comment forest is
/// reconstructed from the assembled comments.
pub open spec fn spec_parse_submission(id: Seq<char>, doc: Element) -> Result<
    PostView,
    ParseErrorView,
> {
    match spec_find(doc, q_class("fatitem"@)) {
        Option::None => Result::Err(missing_view("header"@)),
        Option::Some(h) => match spec_story_link_of(h) {
            Result::Err(e) => Result::Err(e),
            Result::Ok(tu) => match spec_comment_count_of(h) {
                Result::Err(e) => Result::Err(e),
                Result::Ok(cc) => match spec_comments_flat(doc) {
                    Result::Err(e) => Result::Err(e),
                    Result::Ok(flat) => Result::Ok(
                        PostView {
                            id: id,
                            title: tu.0,
                            url: tu.1,
                            username: match spec_username_of(h) {
                                Result::Ok(u) => u,
                                Result::Err(_) => "<unknown>"@,
                            },
                            score: match spec_score_of(h) {
                                Result::Ok(v) => v,
                                Result::Err(_) => 0,
                            },
                            comment_count: cc,
                            comments: spec_build_tree(flat),
                            vote: spec_derive_vote(spec_upvote_of(h), spec_downvote_of(h)),
                        },
                    ),
                },
            },
        },
    }
}

/// Map a submission document to one post with its comment forest. The
/// header's story link and comment count are mandatory; its username and
/// score degrade to defaults; one corrupt comment aborts the whole
/// submission with its error.
#[verifier::loop_isolation(false)]
pub fn parse_submission(id: &str, doc: &Element) -> (r: Result<Post, ParseError>)
    ensures
        lift_post(r) == spec_parse_submission(id@, *doc),
{
    proof {
        reveal_strlit("fatitem");
        reveal_strlit("comment-tree");
        reveal_strlit("athing");
        reveal_strlit("comtr");
    }
    let q_header = Query::by_class("fatitem");
    let header = match find_first(doc, &q_header) {
        None => {
            return Err(ParseError::missing("header"));
        },
        Some(h) => h,
    };
    let (title, url) = match extract_story_link(header) {
        Ok(v) => v,
        Err(e) => {
            return Err(e);
        },
    };
    let comment_count = match extract_comment_count(header) {
        Ok(v) => v,
        Err(e) => {
            return Err(e);
        },
    };
    let username = match extract_username(header) {
        Ok(v) => v,
        Err(_) => "<unknown>".to_owned(),
    };
    let score = match score_of(header) {
        Ok(v) => v,
        Err(_) => 0,
    };
    let upvote = extract_upvote(header);
    let downvote = extract_downvote(header);
    let vote = derive_vote(upvote, downvote);

    let mut flat: Vec<Comment> = Vec::new();
    proof {
        lemma_comment_seq_view(flat@);
        assert(comment_seq_view(flat@) =~= Seq::<CommentView>::empty());
    }
    let q_tree = Query::by_class("comment-tree");
    let q_comtr = Query::by_classes("athing", "comtr");
    let elems = select_scoped(doc, &q_tree, &q_comtr);
    let ghost sel = spec_select_scoped(*doc, q_tree@, q_comtr@);
    proof {
        match spec_comments_from(sel, 0) {
            Result::Ok(rest) => {
                assert(Seq::<CommentView>::empty() + rest =~= rest);
            },
            Result::Err(_) => {},
        }
    }
    let mut k: usize = 0;
    while k < elems.len()
        invariant
            k <= elems@.len(),
            elems@.len() == sel.len(),
            forall|j: int| 0 <= j < sel.len() ==> *elems@[j] == sel[j],
            match spec_comments_from(sel, k as int) {
                Result::Ok(rest) => spec_comments_from(sel, 0) == Result::<
                    Seq<CommentView>,
                    ParseErrorView,
                >::Ok(comment_seq_view(flat@) + rest),
                Result::Err(e) => spec_comments_from(sel, 0) == Result::<Seq<CommentView>, ParseErrorView>::Err(e),
            },
        decreases elems@.len() - k,
    {
        match assemble_comment(elems[k]) {
            Err(e) => {
                return Err(e);
            },
            Ok(c) => {
                let ghost flat0 = flat@;
                flat.push(c);
                proof {
                    lemma_comment_seq_view(flat0);
                    lemma_comment_seq_view(flat@);
                    assert(comment_seq_view(flat@) =~= comment_seq_view(flat0).push(c@));
                    match spec_comments_from(sel, k + 1) {
                        Result::Ok(rest) => {
                            assert(comment_seq_view(flat0) + (seq![c@] + rest)
                                =~= comment_seq_view(flat@) + rest);
                        },
                        Result::Err(_) => {},
                    }
                }
            },
        }
        k = k + 1;
    }
    proof {
        assert(comment_seq_view(flat@) + Seq::<CommentView>::empty() =~= comment_seq_view(flat@));
    }
    let comments = build_tree(flat);
    let p = Post {
        id: id.to_owned(),
        title,
        url,
        username,
        score,
        comment_count,
        comments,
        vote,
    };
    Ok(p)
}

// ---------------------------------------------------------------------------
// Laws of assembly
// ---------------------------------------------------------------------------

/// A well-formed listing yields one post per row: when every row of the
/// document assembles, the listing succeeds with exactly as many posts as
/// rows, the post at each position assembled from the row at the same
/// position.
pub proof fn lemma_listing_counts(doc: Element)
    requires
        forall|j: int|
            0 <= j < spec_rows(doc).len() ==> (#[trigger] spec_assemble_post(
                spec_rows(doc)[j].0,
                spec_rows(doc)[j].1,
            )) is Ok,
    ensures
        spec_parse_list(doc) matches Result::Ok(ps) && ps.len() == spec_rows(doc).len() && forall|
            j: int,
        |
            0 <= j < ps.len() ==> Result::<PostView, ParseErrorView>::Ok(ps[j])
                == spec_assemble_post(spec_rows(doc)[j].0, spec_rows(doc)[j].1),
{
    lemma_posts_from_ok(spec_rows(doc), 0);
}

proof fn lemma_posts_from_ok(pairs: Seq<(Element, Option<Element>)>, k: int)
    requires
        0 <= k <= pairs.len(),
        forall|j: int|
            k <= j < pairs.len() ==> (#[trigger] spec_assemble_post(pairs[j].0, pairs[j].1)) is Ok,
    ensures
        spec_posts_from(pairs, k) matches Result::Ok(ps) && ps.len() == pairs.len() - k && forall|
            j: int,
        |
            0 <= j < ps.len() ==> Result::<PostView, ParseErrorView>::Ok(ps[j])
                == spec_assemble_post(pairs[k + j].0, pairs[k + j].1),
    decreases pairs.len() - k,
{
    if k < pairs.len() {
        lemma_posts_from_ok(pairs, k + 1);
    }
}

/// The landing page that a successful authentication redirects to.
pub open spec fn spec_auth_landing() -> Seq<char> {
    "https://news.ycombinator.com/news"@
}

/// Whether the URL a credential submission landed on is the expected
/// landing page; anything else means the credentials were rejected.
pub fn auth_landing_ok(url: &str) -> (r: bool)
    ensures
        r == (url@ == spec_auth_landing()),
{
    crate::text::str_eq(url, "https://news.ycombinator.com/news")
}

/// Reassembly is deterministic: the records a document yields are a
/// function of the document alone, so assembling the same immutable
/// document twice yields structurally equal results.
pub proof fn lemma_reassembly_deterministic(
    id: Seq<char>,
    doc: Element,
    r1: Result<PostView, ParseErrorView>,
    r2: Result<PostView, ParseErrorView>,
)
    requires
        r1 == spec_parse_submission(id, doc),
        r2 == spec_parse_submission(id, doc),
    ensures
        r1 == r2,
{
}

} // verus!
