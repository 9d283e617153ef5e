use hnclient::dom::{Attr, Element, Node};
use hnclient::errors::ErrorKind;
use hnclient::extract::{
    derive_vote, extract_comment_count, extract_downvote, extract_score, extract_upvote,
    extract_username, score_of,
};
use hnclient::VoteAction;

fn el(tag: &str, attrs: &[(&str, &str)], children: Vec<Node>) -> Element {
    Element {
        tag: tag.to_string(),
        attrs: attrs
            .iter()
            .map(|(n, v)| Attr { name: n.to_string(), value: v.to_string() })
            .collect(),
        children,
    }
}

fn eln(tag: &str, attrs: &[(&str, &str)], children: Vec<Node>) -> Node {
    Node::El(el(tag, attrs, children))
}

fn txt(s: &str) -> Node {
    Node::Txt(s.to_string())
}

#[test]
fn score_with_leading_space() {
    assert_eq!(extract_score(" 532 points").unwrap(), 532);
}

#[test]
fn score_single_point() {
    assert_eq!(extract_score("1 point").unwrap(), 1);
}

#[test]
fn score_malformed() {
    let e = extract_score("points").unwrap_err();
    assert_eq!(e.kind, ErrorKind::ParseFailure);
    assert_eq!(e.field, "score");
}

#[test]
fn score_overflow_is_parse_failure() {
    let e = extract_score("99999999999999999999999 points").unwrap_err();
    assert_eq!(e.kind, ErrorKind::ParseFailure);
}

#[test]
fn score_of_element() {
    let scope = el("td", &[], vec![eln("span", &[("class", "score")], vec![txt("150 points")])]);
    assert_eq!(score_of(&scope).unwrap(), 150);
}

#[test]
fn score_of_missing_element() {
    let scope = el("td", &[], vec![]);
    let e = score_of(&scope).unwrap_err();
    assert_eq!(e.kind, ErrorKind::MissingField);
}

#[test]
fn comment_count_discuss() {
    let scope = el("td", &[], vec![eln("a", &[("href", "item?id=1")], vec![txt("discuss")])]);
    assert_eq!(extract_comment_count(&scope).unwrap(), 0);
}

#[test]
fn comment_count_number() {
    let scope = el("td", &[], vec![eln("a", &[("href", "item?id=1")], vec![txt("42 comments")])]);
    assert_eq!(extract_comment_count(&scope).unwrap(), 42);
}

#[test]
fn comment_count_absent_anchor() {
    let scope = el("td", &[], vec![eln("span", &[], vec![txt("42 comments")])]);
    let e = extract_comment_count(&scope).unwrap_err();
    assert_eq!(e.kind, ErrorKind::MissingField);
    assert_eq!(e.field, "comment_count");
}

#[test]
fn comment_count_singular_anchor_does_not_match() {
    let scope = el("td", &[], vec![eln("a", &[("href", "item?id=1")], vec![txt("1 comment")])]);
    let e = extract_comment_count(&scope).unwrap_err();
    assert_eq!(e.kind, ErrorKind::MissingField);
}

#[test]
fn comment_count_last_matching_anchor_wins() {
    let scope = el(
        "td",
        &[],
        vec![
            eln("a", &[], vec![txt("7 comments")]),
            eln("a", &[], vec![txt("past")]),
            eln("a", &[], vec![txt("42 comments")]),
        ],
    );
    assert_eq!(extract_comment_count(&scope).unwrap(), 42);
}

#[test]
fn upvote_alone() {
    let scope = el("td", &[], vec![eln("a", &[("href", "vote?id=1&how=up&auth=a")], vec![])]);
    let up = extract_upvote(&scope);
    let down = extract_downvote(&scope);
    assert!(matches!(up, Some(VoteAction::Upvote(_))));
    assert!(down.is_none());
    let v = derive_vote(up, down).unwrap();
    assert!(v.is_upvote());
}

#[test]
fn downvote_alone() {
    let scope = el("td", &[], vec![eln("a", &[("href", "vote?id=1&how=un&auth=a")], vec![])]);
    let up = extract_upvote(&scope);
    let down = extract_downvote(&scope);
    assert!(up.is_none());
    assert!(matches!(down, Some(VoteAction::Downvote(_))));
    let v = derive_vote(up, down).unwrap();
    assert!(!v.is_upvote());
}

#[test]
fn both_votes_prefer_upvote() {
    let scope = el(
        "td",
        &[],
        vec![
            eln("a", &[("href", "vote?id=1&how=up&auth=a")], vec![]),
            eln("a", &[("href", "vote?id=1&how=un&auth=a")], vec![]),
        ],
    );
    let v = derive_vote(extract_upvote(&scope), extract_downvote(&scope)).unwrap();
    assert!(v.is_upvote());
    assert_eq!(v.url(), "vote?id=1&how=up&auth=a");
}

#[test]
fn neither_vote() {
    let scope = el("td", &[], vec![eln("a", &[("href", "item?id=1")], vec![txt("discuss")])]);
    assert!(derive_vote(extract_upvote(&scope), extract_downvote(&scope)).is_none());
}

#[test]
fn hidden_upvote_is_absent() {
    let scope = el(
        "td",
        &[],
        vec![eln("a", &[("href", "vote?id=1&how=up&auth=a"), ("class", "clicky nosee")], vec![])],
    );
    assert!(extract_upvote(&scope).is_none());
}

#[test]
fn username_text_is_normalized() {
    let scope = el(
        "td",
        &[],
        vec![eln("a", &[("class", "hnuser")], vec![txt("  ali"), txt("ce  ")])],
    );
    assert_eq!(extract_username(&scope).unwrap(), "ali ce");
}

#[test]
fn username_missing() {
    let scope = el("td", &[], vec![]);
    let e = extract_username(&scope).unwrap_err();
    assert_eq!(e.kind, ErrorKind::MissingField);
    assert_eq!(e.field, "username");
}

#[test]
fn class_matching_is_word_based() {
    let scope = el(
        "td",
        &[],
        vec![eln("a", &[("class", "hnuserx")], vec![txt("mallory")])],
    );
    let e = extract_username(&scope).unwrap_err();
    assert_eq!(e.kind, ErrorKind::MissingField);
}
