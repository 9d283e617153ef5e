use vstd::prelude::*;
use crate::dom::{
    Element, Query, QueryV, spec_attr, spec_find, spec_select, spec_text, spec_render_el, get_attr,
    find_first, select_all, el_text, render_element,
};
use crate::errors::{ParseError, ParseErrorView, missing_view, malformed_view};
use crate::text::{
    spec_contains, spec_ends_with, spec_parse_u64, spec_digits_of, first_nonspace, token_end,
    to_chars, copy_range, seek_nonspace, seek_space, parse_u64_chars, digits_of, chars_to_string,
    chars_eq_str, chars_end_with, str_contains,
};
use crate::types::{VoteAction, VoteActionView, opt_vote_view};

verus! {

// ---------------------------------------------------------------------------
// Queries the extractors use, and lifts from results to their images
// ---------------------------------------------------------------------------

pub open spec fn q_class(c: Seq<char>) -> QueryV {
    QueryV { tag: Option::None, class: Option::Some(c), class2: Option::None }
}

pub open spec fn q_tag(t: Seq<char>) -> QueryV {
    QueryV { tag: Option::Some(t), class: Option::None, class2: Option::None }
}

pub open spec fn q_classes(c: Seq<char>, d: Seq<char>) -> QueryV {
    QueryV { tag: Option::None, class: Option::Some(c), class2: Option::Some(d) }
}

pub open spec fn lift_str(r: Result<String, ParseError>) -> Result<Seq<char>, ParseErrorView> {
    match r {
        Result::Ok(s) => Result::Ok(s@),
        Result::Err(e) => Result::Err(e@),
    }
}

pub open spec fn lift_pair(r: Result<(String, String), ParseError>) -> Result<
    (Seq<char>, Seq<char>),
    ParseErrorView,
> {
    match r {
        Result::Ok(p) => Result::Ok((p.0@, p.1@)),
        Result::Err(e) => Result::Err(e@),
    }
}

pub open spec fn lift_u64(r: Result<u64, ParseError>) -> Result<u64, ParseErrorView> {
    match r {
        Result::Ok(v) => Result::Ok(v),
        Result::Err(e) => Result::Err(e@),
    }
}

pub open spec fn lift_u32(r: Result<u32, ParseError>) -> Result<u32, ParseErrorView> {
    match r {
        Result::Ok(v) => Result::Ok(v),
        Result::Err(e) => Result::Err(e@),
    }
}

// ---------------------------------------------------------------------------
// Username
// ---------------------------------------------------------------------------

/// The username within a scope: the text of its first user-link
/// descendant; missing when no such descendant with non-empty text exists.
pub open spec fn spec_username_of(el: Element) -> Result<Seq<char>, ParseErrorView> {
    match spec_find(el, q_class("hnuser"@)) {
        Option::None => Result::Err(missing_view("username"@)),
        Option::Some(u) => {
            let t = spec_text(u);
            if t.len() == 0 {
                Result::Err(missing_view("username"@))
            } else {
                Result::Ok(t)
            }
        },
    }
}

/// Locate the unique user-link descendant and return its text.
pub fn extract_username(el: &Element) -> (r: Result<String, ParseError>)
    ensures
        lift_str(r) == spec_username_of(*el),
{
    proof { reveal_strlit("hnuser"); }
    let q = Query::by_class("hnuser");
    match find_first(el, &q) {
        None => Err(ParseError::missing("username")),
        Some(u) => {
            let t = el_text(u);
            if t.len() == 0 {
                Err(ParseError::missing("username"))
            } else {
                Ok(chars_to_string(&t))
            }
        },
    }
}

// ---------------------------------------------------------------------------
// Title and url
// ---------------------------------------------------------------------------

/// The title and link target of the story-link descendant; missing when
/// the link, its target, or its text is absent.
pub open spec fn spec_story_link_of(el: Element) -> Result<(Seq<char>, Seq<char>), ParseErrorView> {
    match spec_find(el, q_class("storylink"@)) {
        Option::None => Result::Err(missing_view("title_or_url"@)),
        Option::Some(sl) => match spec_attr(sl, "href"@) {
            Option::None => Result::Err(missing_view("title_or_url"@)),
            Option::Some(url) => {
                let t = spec_text(sl);
                if t.len() == 0 {
                    Result::Err(missing_view("title_or_url"@))
                } else {
                    Result::Ok((t, url))
                }
            },
        },
    }
}

/// Locate the title/link element; returns (title, url).
pub fn extract_story_link(el: &Element) -> (r: Result<(String, String), ParseError>)
    ensures
        lift_pair(r) == spec_story_link_of(*el),
{
    proof { reveal_strlit("storylink"); }
    let q = Query::by_class("storylink");
    match find_first(el, &q) {
        None => Err(ParseError::missing("title_or_url")),
        Some(sl) => match get_attr(sl, "href") {
            None => Err(ParseError::missing("title_or_url")),
            Some(url) => {
                let t = el_text(sl);
                if t.len() == 0 {
                    Err(ParseError::missing("title_or_url"))
                } else {
                    Ok((chars_to_string(&t), url.clone()))
                }
            },
        },
    }
}

// ---------------------------------------------------------------------------
// Score
// ---------------------------------------------------------------------------

/// What a score string yields: its first whitespace-delimited token read
/// as a decimal number, or a parse failure.
pub open spec fn spec_score_from(s: Seq<char>) -> Result<u64, ParseErrorView> {
    let a = first_nonspace(s, 0);
    let b = token_end(s, a);
    match spec_parse_u64(s.subrange(a, b)) {
        Option::Some(v) => Result::Ok(v),
        Option::None => Result::Err(malformed_view("score"@, s)),
    }
}

/// Read a compound "N points" string: the leading integer of its first
/// token. Malformed or missing leading numbers are a parse failure.
pub fn extract_score(text: &str) -> (r: Result<u64, ParseError>)
    ensures
        lift_u64(r) == spec_score_from(text@),
{
    let v = to_chars(text);
    let a = seek_nonspace(&v, 0);
    let b = seek_space(&v, a);
    let tok = copy_range(&v, a, b);
    match parse_u64_chars(&tok) {
        Some(n) => Ok(n),
        None => Err(ParseError::malformed("score", text)),
    }
}

/// The score of a scope: the score element's text read as "N points";
/// missing when there is no score element.
pub open spec fn spec_score_of(el: Element) -> Result<u64, ParseErrorView> {
    match spec_find(el, q_class("score"@)) {
        Option::None => Result::Err(missing_view("score"@)),
        Option::Some(sc) => spec_score_from(spec_text(sc)),
    }
}

pub fn score_of(el: &Element) -> (r: Result<u64, ParseError>)
    ensures
        lift_u64(r) == spec_score_of(*el),
{
    proof { reveal_strlit("score"); }
    let q = Query::by_class("score");
    match find_first(el, &q) {
        None => Err(ParseError::missing("score")),
        Some(sc) => {
            let t = el_text(sc);
            let a = seek_nonspace(&t, 0);
            let b = seek_space(&t, a);
            let tok = copy_range(&t, a, b);
            match parse_u64_chars(&tok) {
                Some(n) => Ok(n),
                None => {
                    let raw = chars_to_string(&t);
                    Err(ParseError::malformed("score", raw.as_str()))
                },
            }
        },
    }
}

// ---------------------------------------------------------------------------
// Comment count
// ---------------------------------------------------------------------------

/// An anchor text that announces the comment count: it ends with
/// "comments" or reads "discuss".
pub open spec fn is_count_text(t: Seq<char>) -> bool {
    spec_ends_with(t, "comments"@) || t == "discuss"@
}

/// The text of the last anchor among `s[..i]` announcing a comment count.
pub open spec fn last_count_text(s: Seq<Element>, i: int) -> Option<Seq<char>>
    decreases i,
{
    if i <= 0 {
        Option::None
    } else {
        let t = spec_text(s[i - 1]);
        if is_count_text(t) {
            Option::Some(t)
        } else {
            last_count_text(s, i - 1)
        }
    }
}

/// The comment count of a scope: among its anchors, the last whose text
/// ends with "comments" or reads "discuss" decides; "discuss" counts as
/// zero, otherwise the digits of the text are read as a decimal number.
pub open spec fn spec_comment_count_of(el: Element) -> Result<u64, ParseErrorView> {
    let anchors = spec_select(el, q_tag("a"@));
    match last_count_text(anchors, anchors.len() as int) {
        Option::None => Result::Err(missing_view("comment_count"@)),
        Option::Some(t) => if t == "discuss"@ {
            Result::Ok(0)
        } else {
            match spec_parse_u64(spec_digits_of(t)) {
                Option::Some(v) => Result::Ok(v),
                Option::None => Result::Err(malformed_view("comment_count"@, t)),
            }
        },
    }
}

/// Scan the scope's anchors for the comment count; "discuss" maps to 0.
pub fn extract_comment_count(el: &Element) -> (r: Result<u64, ParseError>)
    ensures
        lift_u64(r) == spec_comment_count_of(*el),
{
    let q = Query::by_tag("a");
    let anchors = select_all(el, &q);
    let ghost sel = spec_select(*el, q@);
    let mut i: usize = anchors.len();
    while i > 0
        invariant
            i <= anchors@.len(),
            sel == spec_select(*el, q_tag("a"@)),
            anchors@.len() == sel.len(),
            forall|j: int| 0 <= j < sel.len() ==> *anchors@[j] == sel[j],
            last_count_text(sel, sel.len() as int) == last_count_text(sel, i as int),
        decreases i,
    {
        let t = el_text(anchors[i - 1]);
        proof {
            assert(t@ == spec_text(sel[i - 1]));
        }
        if chars_end_with(&t, "comments") || chars_eq_str(&t, "discuss") {
            proof {
                assert(last_count_text(sel, i as int) == Option::Some(t@));
            }
            if chars_eq_str(&t, "discuss") {
                return Ok(0);
            }
            let ds = digits_of(&t);
            match parse_u64_chars(&ds) {
                Some(v) => {
                    return Ok(v);
                },
                None => {
                    let raw = chars_to_string(&t);
                    return Err(ParseError::malformed("comment_count", raw.as_str()));
                },
            }
        }
        i = i - 1;
    }
    Err(ParseError::missing("comment_count"))
}

// ---------------------------------------------------------------------------
// Vote affordances
// ---------------------------------------------------------------------------

/// The anchor's link target contains the marker `pat`.
pub open spec fn anchor_href_has(e: Element, pat: Seq<char>) -> bool {
    match spec_attr(e, "href"@) {
        Option::Some(h) => spec_contains(h, pat),
        Option::None => false,
    }
}

/// The first anchor among `s[i..]` whose link target contains `pat`.
pub open spec fn first_href_anchor(s: Seq<Element>, i: int, pat: Seq<char>) -> Option<Element>
    decreases s.len() - i,
{
    if i < 0 || i >= s.len() {
        Option::None
    } else if anchor_href_has(s[i], pat) {
        Option::Some(s[i])
    } else {
        first_href_anchor(s, i + 1, pat)
    }
}

/// The upvote affordance of a scope: the first anchor whose link target
/// contains the upvote marker, unless that anchor is styled as hidden
/// (already voted).
pub open spec fn spec_upvote_of(el: Element) -> Option<VoteActionView> {
    match first_href_anchor(spec_select(el, q_tag("a"@)), 0, "how=up"@) {
        Option::None => Option::None,
        Option::Some(a) => {
            let hidden = match spec_attr(a, "class"@) {
                Option::Some(c) => spec_contains(c, "nosee"@),
                Option::None => false,
            };
            if hidden {
                Option::None
            } else {
                match spec_attr(a, "href"@) {
                    Option::Some(h) => Option::Some(VoteActionView::Upvote(h)),
                    Option::None => Option::None,
                }
            }
        },
    }
}

/// The downvote affordance of a scope: the first anchor whose link target
/// contains the downvote marker.
pub open spec fn spec_downvote_of(el: Element) -> Option<VoteActionView> {
    match first_href_anchor(spec_select(el, q_tag("a"@)), 0, "how=un"@) {
        Option::None => Option::None,
        Option::Some(a) => match spec_attr(a, "href"@) {
            Option::Some(h) => Option::Some(VoteActionView::Downvote(h)),
            Option::None => Option::None,
        },
    }
}

fn find_href_anchor<'a>(anchors: &Vec<&'a Element>, sel: Ghost<Seq<Element>>, pat: &str) -> (r:
    Option<&'a Element>)
    requires
        anchors@.len() == sel@.len(),
        forall|j: int| 0 <= j < sel@.len() ==> *anchors@[j] == sel@[j],
    ensures
        match r {
            Option::Some(a) => first_href_anchor(sel@, 0, pat@) == Option::Some(*a),
            Option::None => first_href_anchor(sel@, 0, pat@) is None,
        },
{
    let mut i: usize = 0;
    while i < anchors.len()
        invariant
            i <= anchors@.len(),
            anchors@.len() == sel@.len(),
            forall|j: int| 0 <= j < sel@.len() ==> *anchors@[j] == sel@[j],
            first_href_anchor(sel@, 0, pat@) == first_href_anchor(sel@, i as int, pat@),
        decreases anchors@.len() - i,
    {
        let a = anchors[i];
        let hit = match get_attr(a, "href") {
            Some(h) => str_contains(h.as_str(), pat),
            None => false,
        };
        if hit {
            return Some(a);
        }
        i = i + 1;
    }
    None
}

/// Scan a scope's anchors for an upvote link, skipping hidden ones.
pub fn extract_upvote(el: &Element) -> (r: Option<VoteAction>)
    ensures
        opt_vote_view(r) == spec_upvote_of(*el),
{
    let q = Query::by_tag("a");
    let anchors = select_all(el, &q);
    let ghost sel = spec_select(*el, q@);
    match find_href_anchor(&anchors, Ghost(sel), "how=up") {
        None => None,
        Some(a) => {
            let hidden = match get_attr(a, "class") {
                Some(c) => str_contains(c.as_str(), "nosee"),
                None => false,
            };
            if hidden {
                None
            } else {
                match get_attr(a, "href") {
                    Some(h) => Some(VoteAction::Upvote(h.clone())),
                    None => None,
                }
            }
        },
    }
}

/// Scan a scope's anchors for a downvote link.
pub fn extract_downvote(el: &Element) -> (r: Option<VoteAction>)
    ensures
        opt_vote_view(r) == spec_downvote_of(*el),
{
    let q = Query::by_tag("a");
    let anchors = select_all(el, &q);
    let ghost sel = spec_select(*el, q@);
    match find_href_anchor(&anchors, Ghost(sel), "how=un") {
        None => None,
        Some(a) => match get_attr(a, "href") {
            Some(h) => Some(VoteAction::Downvote(h.clone())),
            None => None,
        },
    }
}

/// Prefer the upvote over the downvote when both are present; a downvote
/// affordance alone means the record is already upvoted by this session.
pub open spec fn spec_derive_vote(up: Option<VoteActionView>, down: Option<VoteActionView>) -> Option<
    VoteActionView,
> {
    if up is Some {
        up
    } else {
        down
    }
}

/// Derive the single vote affordance of a post from the two anchors.
pub fn derive_vote(up: Option<VoteAction>, down: Option<VoteAction>) -> (r: Option<VoteAction>)
    ensures
        opt_vote_view(r) == spec_derive_vote(opt_vote_view(up), opt_vote_view(down)),
        up is Some ==> r == up,
        up is None ==> r == down,
{
    match up {
        Some(u) => Some(u),
        None => down,
    }
}

// ---------------------------------------------------------------------------
// Comment fields: age, depth, body
// ---------------------------------------------------------------------------

/// The age of a comment: the text of its age element; missing when the
/// element is absent or empty.
pub open spec fn spec_age_of(el: Element) -> Result<Seq<char>, ParseErrorView> {
    match spec_find(el, q_class("age"@)) {
        Option::None => Result::Err(missing_view("age"@)),
        Option::Some(a) => {
            let t = spec_text(a);
            if t.len() == 0 {
                Result::Err(missing_view("age"@))
            } else {
                Result::Ok(t)
            }
        },
    }
}

/// The opaque, human-readable age of the comment.
pub fn extract_age(el: &Element) -> (r: Result<String, ParseError>)
    ensures
        lift_str(r) == spec_age_of(*el),
{
    proof { reveal_strlit("age"); }
    let q = Query::by_class("age");
    match find_first(el, &q) {
        None => Err(ParseError::missing("age")),
        Some(a) => {
            let t = el_text(a);
            if t.len() == 0 {
                Err(ParseError::missing("age"))
            } else {
                Ok(chars_to_string(&t))
            }
        },
    }
}

/// How many pixels of indentation stand for one nesting level.
pub open spec fn spec_depth_unit() -> int {
    40
}

/// The depth of a comment: the width attribute of the image inside its
/// indentation spacer, divided by the per-level pixel unit. Missing when
/// spacer, image or attribute is absent; a parse failure when the width
/// is not a number or is out of range.
pub open spec fn spec_depth_of(el: Element) -> Result<u32, ParseErrorView> {
    match spec_find(el, q_class("ind"@)) {
        Option::None => Result::Err(missing_view("depth"@)),
        Option::Some(ind) => match spec_find(ind, q_tag("img"@)) {
            Option::None => Result::Err(missing_view("depth"@)),
            Option::Some(img) => match spec_attr(img, "width"@) {
                Option::None => Result::Err(missing_view("depth"@)),
                Option::Some(w) => match spec_parse_u64(w) {
                    Option::None => Result::Err(malformed_view("depth"@, w)),
                    Option::Some(px) => if px / spec_depth_unit() as u64 <= u32::MAX {
                        Result::Ok((px / spec_depth_unit() as u64) as u32)
                    } else {
                        Result::Err(malformed_view("depth"@, w))
                    },
                },
            },
        },
    }
}

/// Derive the comment's nesting depth from its indentation spacer.
pub fn extract_depth(el: &Element) -> (r: Result<u32, ParseError>)
    ensures
        lift_u32(r) == spec_depth_of(*el),
{
    proof { reveal_strlit("ind"); }
    let q_ind = Query::by_class("ind");
    match find_first(el, &q_ind) {
        None => Err(ParseError::missing("depth")),
        Some(ind) => {
            let q_img = Query::by_tag("img");
            match find_first(ind, &q_img) {
                None => Err(ParseError::missing("depth")),
                Some(img) => match get_attr(img, "width") {
                    None => Err(ParseError::missing("depth")),
                    Some(w) => {
                        let wc = to_chars(w.as_str());
                        match parse_u64_chars(&wc) {
                            None => Err(ParseError::malformed("depth", w.as_str())),
                            Some(px) => {
                                let d = px / 40;
                                if d <= u32::MAX as u64 {
                                    Ok(d as u32)
                                } else {
                                    Err(ParseError::malformed("depth", w.as_str()))
                                }
                            },
                        }
                    },
                },
            }
        },
    }
}

/// The body of a comment: its comment element rendered back to markup,
/// deliberately left unparsed.
pub open spec fn spec_content_of(el: Element) -> Result<Seq<char>, ParseErrorView> {
    match spec_find(el, q_class("comment"@)) {
        Option::None => Result::Err(missing_view("content_html"@)),
        Option::Some(c) => Result::Ok(spec_render_el(c)),
    }
}

/// The raw markup of the comment body.
pub fn extract_content_html(el: &Element) -> (r: Result<String, ParseError>)
    ensures
        lift_str(r) == spec_content_of(*el),
{
    proof { reveal_strlit("comment"); }
    let q = Query::by_class("comment");
    match find_first(el, &q) {
        None => Err(ParseError::missing("content_html")),
        Some(c) => {
            let rendered = render_element(c);
            Ok(chars_to_string(&rendered))
        },
    }
}

/// An anchor styled as hidden: already voted, so its upvote link does
/// not count as an affordance.
pub open spec fn anchor_hidden(e: Element) -> bool {
    match spec_attr(e, "class"@) {
        Option::Some(c) => spec_contains(c, "nosee"@),
        Option::None => false,
    }
}

/// Walk the anchors `s[..i]` in order, remembering the last upvote link
/// and the last downvote link seen. A link carrying the upvote marker is
/// not also read as a downvote link, and one styled as hidden
/// (already voted) is excluded from the upvote search.
pub open spec fn spec_vote_fold(s: Seq<Element>, i: int) -> (
    Option<VoteActionView>,
    Option<VoteActionView>,
)
    decreases i,
{
    if i <= 0 {
        (Option::None, Option::None)
    } else {
        let prev = spec_vote_fold(s, i - 1);
        match spec_attr(s[i - 1], "href"@) {
            Option::Some(h) => if spec_contains(h, "how=up"@) {
                if anchor_hidden(s[i - 1]) {
                    prev
                } else {
                    (Option::Some(VoteActionView::Upvote(h)), prev.1)
                }
            } else if spec_contains(h, "how=un"@) {
                (prev.0, Option::Some(VoteActionView::Downvote(h)))
            } else {
                prev
            },
            Option::None => prev,
        }
    }
}

/// The independent up- and downvote affordances of a comment: read from
/// the anchors of its vote-links cell; both absent when the cell is.
pub open spec fn spec_comment_votes(el: Element) -> (
    Option<VoteActionView>,
    Option<VoteActionView>,
) {
    match spec_find(el, q_class("votelinks"@)) {
        Option::None => (Option::None, Option::None),
        Option::Some(vl) => {
            let s = spec_select(vl, q_tag("a"@));
            spec_vote_fold(s, s.len() as int)
        },
    }
}

/// The up- and downvote links of a comment, each independently optional.
pub fn extract_comment_votes(el: &Element) -> (r: (Option<VoteAction>, Option<VoteAction>))
    ensures
        (opt_vote_view(r.0), opt_vote_view(r.1)) == spec_comment_votes(*el),
{
    proof { reveal_strlit("votelinks"); }
    let q = Query::by_class("votelinks");
    match find_first(el, &q) {
        None => (None, None),
        Some(vl) => {
            let qa = Query::by_tag("a");
            let anchors = select_all(vl, &qa);
            let ghost sel = spec_select(*vl, qa@);
            let mut up: Option<VoteAction> = None;
            let mut down: Option<VoteAction> = None;
            let mut i: usize = 0;
            while i < anchors.len()
                invariant
                    i <= anchors@.len(),
                    anchors@.len() == sel.len(),
                    forall|j: int| 0 <= j < sel.len() ==> *anchors@[j] == sel[j],
                    (opt_vote_view(up), opt_vote_view(down)) == spec_vote_fold(sel, i as int),
                decreases anchors@.len() - i,
            {
                let a = anchors[i];
                match get_attr(a, "href") {
                    Some(h) => {
                        if str_contains(h.as_str(), "how=up") {
                            let hidden = match get_attr(a, "class") {
                                Some(c) => str_contains(c.as_str(), "nosee"),
                                None => false,
                            };
                            if !hidden {
                                up = Some(VoteAction::Upvote(h.clone()));
                            }
                        } else if str_contains(h.as_str(), "how=un") {
                            down = Some(VoteAction::Downvote(h.clone()));
                        }
                    },
                    None => {},
                }
                i = i + 1;
            }
            (up, down)
        },
    }
}

/// The site-assigned identifier of a row or comment element.
pub open spec fn spec_id_of(el: Element) -> Result<Seq<char>, ParseErrorView> {
    match spec_attr(el, "id"@) {
        Option::None => Result::Err(missing_view("id"@)),
        Option::Some(v) => Result::Ok(v),
    }
}

pub fn extract_id(el: &Element) -> (r: Result<String, ParseError>)
    ensures
        lift_str(r) == spec_id_of(*el),
{
    match get_attr(el, "id") {
        None => Err(ParseError::missing("id")),
        Some(v) => Ok(v.clone()),
    }
}

} // verus!
