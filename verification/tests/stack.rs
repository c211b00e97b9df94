//! The stack of open elements and its scopes.
use html5_parser::tree_builder::names::HTML_NAMESPACE;
use html5_parser::tree_builder::stack::OpenElementsStack;
use html5_parser::{Document, NodeKind};

fn stack_of(document: &mut Document, names: &[&str]) -> OpenElementsStack {
    let mut stack = OpenElementsStack::new();
    for &name in names {
        let node = document.new_node(
            NodeKind::Element {
                name: name.to_owned(),
                namespace: Some(HTML_NAMESPACE.to_owned()),
                attributes: vec![],
            },
            None,
        );
        stack.push(node);
    }
    stack
}

#[test]
fn empty_stack_has_no_current_node() {
    let stack = OpenElementsStack::new();
    assert_eq!(stack.current_node(), None);
}

#[test]
fn push_and_pop_and_current_node() {
    let mut document = Document::new();
    let mut stack = stack_of(&mut document, &["html", "body"]);
    let body = stack.current_node().unwrap();
    assert_eq!(
        document.node(body).kind,
        NodeKind::Element {
            name: "body".to_owned(),
            namespace: Some(HTML_NAMESPACE.to_owned()),
            attributes: vec![],
        }
    );
    stack.pop();
    let html = stack.current_node().unwrap();
    assert_eq!(
        document.node(html).kind,
        NodeKind::Element {
            name: "html".to_owned(),
            namespace: Some(HTML_NAMESPACE.to_owned()),
            attributes: vec![],
        }
    );
}

#[test]
fn has_element_in_scope_finds_a_matching_ancestor() {
    let mut document = Document::new();
    let stack = stack_of(&mut document, &["html", "body", "div", "p"]);
    assert!(stack.has_element_in_scope(&document, "div"));
    assert!(stack.has_element_in_scope(&document, "p"));
    assert!(!stack.has_element_in_scope(&document, "span"));
}

#[test]
fn has_element_in_scope_stops_at_a_boundary_element() {
    let mut document = Document::new();
    let stack = stack_of(&mut document, &["html", "body", "p", "table", "tr", "td"]);
    assert!(!stack.has_element_in_scope(&document, "p"));
    assert!(!stack.has_element_in_scope(&document, "table"));
    assert!(stack.has_element_in_scope(&document, "td"));
}

#[test]
fn has_element_in_list_item_scope_stops_at_ul_but_default_scope_does_not() {
    let mut document = Document::new();
    let stack = stack_of(&mut document, &["html", "body", "ul", "li", "span"]);
    assert!(!stack.has_element_in_list_item_scope(&document, "body"));
    assert!(stack.has_element_in_scope(&document, "body"));
}

#[test]
fn has_element_in_button_scope_stops_at_button() {
    let mut document = Document::new();
    let stack = stack_of(&mut document, &["html", "body", "p", "button"]);
    assert!(!stack.has_element_in_button_scope(&document, "p"));
    assert!(stack.has_element_in_scope(&document, "p"));
}

#[test]
fn has_element_in_table_scope_uses_its_own_short_boundary_list() {
    let mut document = Document::new();
    let stack = stack_of(&mut document, &["html", "table", "td", "div"]);
    assert!(stack.has_element_in_table_scope(&document, "table"));
    assert!(!stack.has_element_in_scope(&document, "table"));
}

#[test]
fn generate_implied_end_tags_pops_while_current_node_is_in_the_list() {
    let mut document = Document::new();
    let mut stack = stack_of(&mut document, &["html", "body", "ul", "li", "p"]);
    stack.generate_implied_end_tags(&document, None);
    let current = stack.current_node().unwrap();
    assert_eq!(
        document.node(current).kind,
        NodeKind::Element {
            name: "ul".to_owned(),
            namespace: Some(HTML_NAMESPACE.to_owned()),
            attributes: vec![],
        }
    );
}

#[test]
fn generate_implied_end_tags_excludes_the_given_element() {
    let mut document = Document::new();
    let mut stack = stack_of(&mut document, &["html", "body", "dl", "dt", "li"]);
    stack.generate_implied_end_tags(&document, Some("li"));
    let current = stack.current_node().unwrap();
    assert_eq!(
        document.node(current).kind,
        NodeKind::Element {
            name: "li".to_owned(),
            namespace: Some(HTML_NAMESPACE.to_owned()),
            attributes: vec![],
        }
    );
}

#[test]
fn generate_implied_end_tags_thoroughly_pops_table_elements_too() {
    let mut document = Document::new();
    let mut stack = stack_of(&mut document, &["html", "table", "tbody", "tr", "td"]);
    stack.generate_implied_end_tags(&document, None);
    assert_eq!(stack.entries.len(), 5);
    stack.generate_implied_end_tags_thoroughly(&document);
    let current = stack.current_node().unwrap();
    assert_eq!(
        document.node(current).kind,
        NodeKind::Element {
            name: "table".to_owned(),
            namespace: Some(HTML_NAMESPACE.to_owned()),
            attributes: vec![],
        }
    );
}
