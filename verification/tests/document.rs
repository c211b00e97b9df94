//! The tree of a document.
use html5_parser::{Document, NodeKind, Position};

fn pos(line: u32, column: u32, byte_offset: usize) -> Position {
    Position {
        line,
        column,
        byte_offset,
    }
}

#[test]
fn new_document_has_only_its_own_document_node() {
    let document = Document::new();
    assert_eq!(document.node(document.root()).kind, NodeKind::Document);
    assert_eq!(document.children(document.root()).count(), 0);
    assert_eq!(document.node(document.root()).position, None);
}

#[test]
fn append_child_attaches_a_detached_node_as_the_last_child() {
    let mut document = Document::new();
    let root = document.root();
    let p = document.new_node(
        NodeKind::Element {
            name: "p".to_owned(),
            namespace: Some("http://www.w3.org/1999/xhtml".to_owned()),
            attributes: vec![],
        },
        Some(pos(1, 1, 0)),
    );
    document.append_child(root, p);

    let children: Vec<_> = document.children(root).collect();
    assert_eq!(children, vec![p]);
    assert_eq!(document.parent(p), Some(root));
}

#[test]
fn multiple_children_are_yielded_in_document_order() {
    let mut document = Document::new();
    let root = document.root();
    let first = document.new_node(
        NodeKind::Text {
            content: "a".to_owned(),
        },
        None,
    );
    let second = document.new_node(
        NodeKind::Text {
            content: "b".to_owned(),
        },
        None,
    );
    let third = document.new_node(
        NodeKind::Text {
            content: "c".to_owned(),
        },
        None,
    );
    document.append_child(root, first);
    document.append_child(root, second);
    document.append_child(root, third);

    let children: Vec<_> = document.children(root).collect();
    assert_eq!(children, vec![first, second, third]);
}

#[test]
fn insert_before_a_reference_places_the_new_node_in_the_middle() {
    let mut document = Document::new();
    let root = document.root();
    let first = document.new_node(
        NodeKind::Text {
            content: "a".to_owned(),
        },
        None,
    );
    let third = document.new_node(
        NodeKind::Text {
            content: "c".to_owned(),
        },
        None,
    );
    document.append_child(root, first);
    document.append_child(root, third);
    let second = document.new_node(
        NodeKind::Text {
            content: "b".to_owned(),
        },
        None,
    );
    document.insert_before(root, Some(third), second);

    let children: Vec<_> = document.children(root).collect();
    assert_eq!(children, vec![first, second, third]);
}

#[test]
fn insert_before_at_the_start_updates_first_child() {
    let mut document = Document::new();
    let root = document.root();
    let second = document.new_node(
        NodeKind::Text {
            content: "b".to_owned(),
        },
        None,
    );
    document.append_child(root, second);
    let first = document.new_node(
        NodeKind::Text {
            content: "a".to_owned(),
        },
        None,
    );
    document.insert_before(root, Some(second), first);

    let children: Vec<_> = document.children(root).collect();
    assert_eq!(children, vec![first, second]);
}

#[test]
fn nested_children_are_independent_of_their_parents_siblings() {
    let mut document = Document::new();
    let root = document.root();
    let div = document.new_node(
        NodeKind::Element {
            name: "div".to_owned(),
            namespace: Some("http://www.w3.org/1999/xhtml".to_owned()),
            attributes: vec![],
        },
        Some(pos(1, 1, 0)),
    );
    document.append_child(root, div);
    let text = document.new_node(
        NodeKind::Text {
            content: "hi".to_owned(),
        },
        Some(pos(1, 6, 5)),
    );
    document.append_child(div, text);

    assert_eq!(document.children(root).collect(), vec![div]);
    assert_eq!(document.children(div).collect(), vec![text]);
    assert_eq!(document.parent(text), Some(div));
}

#[test]
fn synthesized_nodes_carry_no_position_while_parsed_nodes_do() {
    let mut document = Document::new();
    let root = document.root();
    let implied_html = document.new_node(
        NodeKind::Element {
            name: "html".to_owned(),
            namespace: Some("http://www.w3.org/1999/xhtml".to_owned()),
            attributes: vec![],
        },
        None,
    );
    document.append_child(root, implied_html);
    let parsed_p = document.new_node(
        NodeKind::Element {
            name: "p".to_owned(),
            namespace: Some("http://www.w3.org/1999/xhtml".to_owned()),
            attributes: vec![],
        },
        Some(pos(1, 1, 0)),
    );
    document.append_child(implied_html, parsed_p);

    assert_eq!(document.node(implied_html).position, None);
    assert_eq!(document.node(parsed_p).position, Some(pos(1, 1, 0)));
}

#[test]
fn remove_detaches_a_node_and_relinks_its_siblings() {
    let mut document = Document::new();
    let root = document.root();
    let first = document.new_node(
        NodeKind::Text {
            content: "a".to_owned(),
        },
        None,
    );
    let second = document.new_node(
        NodeKind::Text {
            content: "b".to_owned(),
        },
        None,
    );
    let third = document.new_node(
        NodeKind::Text {
            content: "c".to_owned(),
        },
        None,
    );
    document.append_child(root, first);
    document.append_child(root, second);
    document.append_child(root, third);

    document.remove(second);

    assert_eq!(
        document.children(root).collect(),
        vec![first, third]
    );
    assert_eq!(document.parent(second), None);
}

#[test]
fn remove_on_a_node_with_no_parent_is_a_no_op() {
    let mut document = Document::new();
    let detached = document.new_node(
        NodeKind::Text {
            content: "a".to_owned(),
        },
        None,
    );
    document.remove(detached);
    assert_eq!(document.parent(detached), None);
}

#[test]
fn insert_before_an_already_attached_node_moves_it() {
    let mut document = Document::new();
    let root = document.root();
    let old_parent = document.new_node(
        NodeKind::Element {
            name: "div".to_owned(),
            namespace: Some("http://www.w3.org/1999/xhtml".to_owned()),
            attributes: vec![],
        },
        None,
    );
    let new_parent = document.new_node(
        NodeKind::Element {
            name: "span".to_owned(),
            namespace: Some("http://www.w3.org/1999/xhtml".to_owned()),
            attributes: vec![],
        },
        None,
    );
    document.append_child(root, old_parent);
    document.append_child(root, new_parent);
    let child = document.new_node(
        NodeKind::Text {
            content: "hi".to_owned(),
        },
        None,
    );
    document.append_child(old_parent, child);

    document.append_child(new_parent, child);

    assert_eq!(document.children(old_parent).count(), 0);
    assert_eq!(
        document.children(new_parent).collect(),
        vec![child]
    );
    assert_eq!(document.parent(child), Some(new_parent));
}

#[test]
fn is_inclusive_ancestor_covers_self_and_real_ancestors_but_not_others() {
    let mut document = Document::new();
    let root = document.root();
    let div = document.new_node(
        NodeKind::Element {
            name: "div".to_owned(),
            namespace: Some("http://www.w3.org/1999/xhtml".to_owned()),
            attributes: vec![],
        },
        None,
    );
    document.append_child(root, div);
    let span = document.new_node(
        NodeKind::Element {
            name: "span".to_owned(),
            namespace: Some("http://www.w3.org/1999/xhtml".to_owned()),
            attributes: vec![],
        },
        None,
    );
    document.append_child(div, span);
    let unrelated = document.new_node(
        NodeKind::Text {
            content: "x".to_owned(),
        },
        None,
    );
    document.append_child(root, unrelated);

    assert!(document.is_inclusive_ancestor(span, span));
    assert!(document.is_inclusive_ancestor(div, span));
    assert!(document.is_inclusive_ancestor(root, span));
    assert!(!document.is_inclusive_ancestor(unrelated, span));
    assert!(!document.is_inclusive_ancestor(span, div));
}
