use hnclient::assemble::{assemble_comment, auth_landing_ok, parse_list, parse_submission};
use hnclient::dom::{Attr, Element, Node};
use hnclient::errors::{ErrorKind, ParseError};
use hnclient::VoteAction;

fn el(tag: &str, attrs: &[(&str, &str)], children: Vec<Node>) -> Element {
    Element {
        tag: tag.to_string(),
        attrs: attrs
            .iter()
            .map(|(n, v)| Attr { name: n.to_string(), value: v.to_string() })
            .collect(),
        children,
    }
}

fn eln(tag: &str, attrs: &[(&str, &str)], children: Vec<Node>) -> Node {
    Node::El(el(tag, attrs, children))
}

fn txt(s: &str) -> Node {
    Node::Txt(s.to_string())
}

fn listing_row(id: &str, title: &str) -> Node {
    eln(
        "tr",
        &[("class", "athing"), ("id", id)],
        vec![eln("a", &[("class", "storylink"), ("href", "http://example.com/")], vec![txt(title)])],
    )
}

fn action_row(score: &str, user: &str, count: &str) -> Node {
    eln(
        "tr",
        &[],
        vec![
            eln("span", &[("class", "score")], vec![txt(score)]),
            eln("a", &[("class", "hnuser")], vec![txt(user)]),
            eln("a", &[("href", "item?id=1")], vec![txt(count)]),
        ],
    )
}

fn comment_row(id: &str, width: &str, user: &str, body: &str) -> Node {
    eln(
        "tr",
        &[("class", "athing comtr"), ("id", id)],
        vec![
            eln("td", &[("class", "ind")], vec![eln("img", &[("width", width)], vec![])]),
            eln("a", &[("class", "hnuser")], vec![txt(user)]),
            eln("span", &[("class", "age")], vec![txt("2 hours ago")]),
            eln("div", &[("class", "comment")], vec![txt(body)]),
        ],
    )
}

fn submission_doc() -> Element {
    el(
        "html",
        &[],
        vec![
            eln(
                "table",
                &[("class", "fatitem")],
                vec![
                    eln(
                        "a",
                        &[("class", "storylink"), ("href", "http://example.com/")],
                        vec![txt(
                            "Where you are born is more predictive of your future than any other factor",
                        )],
                    ),
                    eln("a", &[("class", "hnuser")], vec![txt("alice")]),
                    eln("span", &[("class", "score")], vec![txt("151 points")]),
                    eln("a", &[("href", "item?id=9")], vec![txt("3 comments")]),
                ],
            ),
            eln(
                "table",
                &[("class", "comment-tree")],
                vec![
                    comment_row("c1", "0", "bob", "first"),
                    comment_row("c2", "40", "carol", "reply"),
                    comment_row("c3", "0", "dan", "second"),
                ],
            ),
        ],
    )
}

#[test]
fn listing_two_rows_two_posts() {
    let doc = el(
        "body",
        &[],
        vec![
            listing_row("101", "First story"),
            action_row("10 points", "alice", "2 comments"),
            listing_row("102", "Second story"),
            action_row("20 points", "bob", "discuss"),
        ],
    );
    let posts = parse_list(&doc).unwrap();
    assert_eq!(posts.len(), 2);
    assert_eq!(posts[0].id, "101");
    assert_eq!(posts[0].title, "First story");
    assert_eq!(posts[0].score, 10);
    assert_eq!(posts[0].comment_count, 2);
    assert_eq!(posts[0].username, "alice");
    assert!(posts[0].comments.is_empty());
    assert_eq!(posts[1].id, "102");
    assert_eq!(posts[1].comment_count, 0);
}

#[test]
fn listing_missing_action_row_aborts() {
    let doc = el("body", &[], vec![listing_row("101", "Lonely story")]);
    let e = parse_list(&doc).unwrap_err();
    assert_eq!(e.kind, ErrorKind::MissingField);
    assert_eq!(e.field, "action_row");
}

#[test]
fn listing_degrades_optional_fields() {
    let doc = el(
        "body",
        &[],
        vec![listing_row("101", "Story"), eln("tr", &[], vec![])],
    );
    let posts = parse_list(&doc).unwrap();
    assert_eq!(posts[0].score, 0);
    assert_eq!(posts[0].comment_count, 0);
    assert_eq!(posts[0].username, "<unknown>");
    assert!(posts[0].vote.is_none());
}

#[test]
fn listing_missing_storylink_aborts() {
    let doc = el(
        "body",
        &[],
        vec![
            eln("tr", &[("class", "athing"), ("id", "7")], vec![]),
            eln("tr", &[], vec![]),
        ],
    );
    let e = parse_list(&doc).unwrap_err();
    assert_eq!(e.kind, ErrorKind::MissingField);
    assert_eq!(e.field, "title_or_url");
}

#[test]
fn test_submission() {
    let doc = submission_doc();
    let s = parse_submission("20993456", &doc).unwrap();
    assert_eq!(s.id, "20993456");
    assert_eq!(
        s.title,
        "Where you are born is more predictive of your future than any other factor"
    );
    assert!(s.score > 150);
    assert_eq!(s.url, "http://example.com/");
    assert_eq!(s.username, "alice");
    assert_eq!(s.comment_count, 3);

    // Tree reconstruction: depths [0, 1, 0] give two roots, the first
    // with one child.
    assert_eq!(s.comments.len(), 2);
    assert_eq!(s.comments[0].id, "c1");
    assert_eq!(s.comments[0].depth, 0);
    assert_eq!(s.comments[0].children.len(), 1);
    assert_eq!(s.comments[0].children[0].id, "c2");
    assert_eq!(s.comments[0].children[0].depth, 1);
    assert_eq!(s.comments[1].id, "c3");
    assert!(s.comments[1].children.is_empty());
    assert_eq!(s.comments[0].children[0].username, "carol");
    assert_eq!(
        s.comments[0].content_html,
        "<div class=\"comment\">first</div>"
    );
}

#[test]
fn submission_reassembly_is_deterministic() {
    let doc = submission_doc();
    let a = parse_submission("20993456", &doc).unwrap();
    let b = parse_submission("20993456", &doc).unwrap();
    assert_eq!(a, b);
}

#[test]
fn submission_missing_header() {
    let doc = el("html", &[], vec![]);
    let e = parse_submission("1", &doc).unwrap_err();
    assert_eq!(e.kind, ErrorKind::MissingField);
    assert_eq!(e.field, "header");
}

#[test]
fn submission_corrupt_comment_aborts() {
    // A comment without a username fails the whole submission.
    let broken = el(
        "html",
        &[],
        vec![
            eln(
                "table",
                &[("class", "fatitem")],
                vec![
                    eln("a", &[("class", "storylink"), ("href", "u")], vec![txt("T")]),
                    eln("a", &[("class", "hnuser")], vec![txt("alice")]),
                    eln("span", &[("class", "score")], vec![txt("1 point")]),
                    eln("a", &[], vec![txt("discuss")]),
                ],
            ),
            eln(
                "table",
                &[("class", "comment-tree")],
                vec![eln("tr", &[("class", "athing comtr"), ("id", "c9")], vec![])],
            ),
        ],
    );
    let e = parse_submission("1", &broken).unwrap_err();
    assert_eq!(e.kind, ErrorKind::MissingField);
    assert_eq!(e.field, "username");
}

#[test]
fn comment_assembly_reads_votes() {
    let mut c = comment_row("c1", "0", "bob", "hi");
    if let Node::El(ref mut e) = c {
        e.children.push(eln(
            "td",
            &[("class", "votelinks")],
            vec![
                eln("a", &[("href", "vote?id=c1&how=up&auth=a")], vec![]),
                eln("a", &[("href", "vote?id=c1&how=un&auth=a")], vec![]),
            ],
        ));
    }
    let c = match c {
        Node::El(e) => e,
        _ => unreachable!(),
    };
    let built = assemble_comment(&c).unwrap();
    assert!(matches!(built.upvote, Some(VoteAction::Upvote(_))));
    assert!(matches!(built.downvote, Some(VoteAction::Downvote(_))));
    assert_eq!(built.age, "2 hours ago");
}

#[test]
fn comment_depth_malformed_width() {
    let c = match comment_row("c1", "wide", "bob", "hi") {
        Node::El(e) => e,
        _ => unreachable!(),
    };
    let e = assemble_comment(&c).unwrap_err();
    assert_eq!(e.kind, ErrorKind::ParseFailure);
    assert_eq!(e.field, "depth");
    assert_eq!(e.raw, "wide");
}

#[test]
fn submission_header_username_degrades() {
    let doc = el(
        "html",
        &[],
        vec![eln(
            "table",
            &[("class", "fatitem")],
            vec![
                eln("a", &[("class", "storylink"), ("href", "u")], vec![txt("T")]),
                eln("span", &[("class", "score")], vec![txt("9 points")]),
                eln("a", &[], vec![txt("discuss")]),
            ],
        )],
    );
    let s = parse_submission("1", &doc).unwrap();
    assert_eq!(s.username, "<unknown>");
    assert_eq!(s.score, 9);
}

#[test]
fn submission_header_score_degrades() {
    let doc = el(
        "html",
        &[],
        vec![eln(
            "table",
            &[("class", "fatitem")],
            vec![
                eln("a", &[("class", "storylink"), ("href", "u")], vec![txt("T")]),
                eln("a", &[("class", "hnuser")], vec![txt("alice")]),
                eln("a", &[], vec![txt("discuss")]),
            ],
        )],
    );
    let s = parse_submission("1", &doc).unwrap();
    assert_eq!(s.username, "alice");
    assert_eq!(s.score, 0);
    assert_eq!(s.comment_count, 0);
}

#[test]
fn submission_missing_comment_count_aborts() {
    let doc = el(
        "html",
        &[],
        vec![eln(
            "table",
            &[("class", "fatitem")],
            vec![
                eln("a", &[("class", "storylink"), ("href", "u")], vec![txt("T")]),
                eln("a", &[("class", "hnuser")], vec![txt("alice")]),
                eln("span", &[("class", "score")], vec![txt("9 points")]),
            ],
        )],
    );
    let e = parse_submission("1", &doc).unwrap_err();
    assert_eq!(e.kind, ErrorKind::MissingField);
    assert_eq!(e.field, "comment_count");
}

#[test]
fn comments_gathered_from_every_tree_container() {
    let mut doc = submission_doc();
    doc.children.push(eln(
        "table",
        &[("class", "comment-tree")],
        vec![comment_row("c4", "0", "erin", "late")],
    ));
    let s = parse_submission("1", &doc).unwrap();
    assert_eq!(s.comments.len(), 3);
    assert_eq!(s.comments[2].id, "c4");
}

#[test]
fn hidden_comment_upvote_excluded() {
    let mut c = comment_row("c1", "0", "bob", "hi");
    if let Node::El(ref mut e) = c {
        e.children.push(eln(
            "td",
            &[("class", "votelinks")],
            vec![eln(
                "a",
                &[("href", "vote?id=c1&how=up&auth=a"), ("class", "nosee")],
                vec![],
            )],
        ));
    }
    let c = match c {
        Node::El(e) => e,
        _ => unreachable!(),
    };
    let built = assemble_comment(&c).unwrap();
    assert!(built.upvote.is_none());
    assert!(built.downvote.is_none());
}

#[test]
fn records_can_be_cloned() {
    let doc = submission_doc();
    let s = parse_submission("20993456", &doc).unwrap();
    let copy = s.clone();
    assert_eq!(copy, s);
    assert_eq!(copy.comments[0].children[0].id, "c2");
}

#[test]
fn auth_landing_check() {
    assert!(auth_landing_ok("https://news.ycombinator.com/news"));
    assert!(!auth_landing_ok("https://news.ycombinator.com/login"));
    assert!(!auth_landing_ok(""));
}

#[test]
fn structural_error_kind_exists() {
    let e = ParseError::new(ErrorKind::StructuralInconsistency, "comments", "");
    assert_eq!(e.kind, ErrorKind::StructuralInconsistency);
}
