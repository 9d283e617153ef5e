use hnclient::tree::build_tree;
use hnclient::Comment;

fn c(id: &str, depth: u32) -> Comment {
    Comment {
        id: id.to_string(),
        depth,
        age: "1 hour ago".to_string(),
        username: "alice".to_string(),
        content_html: "<div class=\"comment\">x</div>".to_string(),
        children: Vec::new(),
        upvote: None,
        downvote: None,
    }
}

fn preorder_ids(forest: &[Comment], out: &mut Vec<String>) {
    for node in forest {
        out.push(node.id.clone());
        preorder_ids(&node.children, out);
    }
}

#[test]
fn chain_of_depths() {
    let forest = build_tree(vec![c("a", 0), c("b", 1), c("c", 2), c("d", 0)]);
    assert_eq!(forest.len(), 2);
    assert_eq!(forest[0].id, "a");
    assert_eq!(forest[0].children.len(), 1);
    assert_eq!(forest[0].children[0].id, "b");
    assert_eq!(forest[0].children[0].children.len(), 1);
    assert_eq!(forest[0].children[0].children[0].id, "c");
    assert_eq!(forest[1].id, "d");
}

#[test]
fn siblings_keep_document_order() {
    let forest = build_tree(vec![c("a", 0), c("b", 1), c("c", 1), c("d", 1)]);
    assert_eq!(forest.len(), 1);
    let kids: Vec<&str> = forest[0].children.iter().map(|k| k.id.as_str()).collect();
    assert_eq!(kids, ["b", "c", "d"]);
}

#[test]
fn preorder_reproduces_input_order() {
    let forest = build_tree(vec![
        c("a", 0),
        c("b", 1),
        c("c", 2),
        c("d", 1),
        c("e", 0),
        c("f", 1),
    ]);
    let mut ids = Vec::new();
    preorder_ids(&forest, &mut ids);
    assert_eq!(ids, ["a", "b", "c", "d", "e", "f"]);
    for root in &forest {
        assert_eq!(root.depth, 0);
    }
}

#[test]
fn depths_match_parents() {
    let forest = build_tree(vec![c("a", 0), c("b", 1), c("c", 2), c("d", 2)]);
    let a = &forest[0];
    let b = &a.children[0];
    assert_eq!(b.depth, a.depth + 1);
    for k in &b.children {
        assert_eq!(k.depth, b.depth + 1);
    }
}

#[test]
fn first_comment_of_nonzero_depth_is_tolerated_as_root() {
    let forest = build_tree(vec![c("a", 3), c("b", 4)]);
    assert_eq!(forest.len(), 1);
    assert_eq!(forest[0].id, "a");
    assert_eq!(forest[0].children.len(), 1);
    assert_eq!(forest[0].children[0].id, "b");
}

#[test]
fn empty_input_gives_empty_forest() {
    let forest = build_tree(Vec::new());
    assert!(forest.is_empty());
}
