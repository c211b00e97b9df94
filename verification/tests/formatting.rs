//! The list of active formatting elements.
use html5_parser::tokenizer::TagToken;
use html5_parser::tree_builder::builder::TreeBuilder;
use html5_parser::tree_builder::formatting::{ActiveFormattingElements, FormattingEntry};
use html5_parser::tree_builder::names::HTML_NAMESPACE;
use html5_parser::{Attribute, Document, NodeId, NodeKind};

fn font_with_color(document: &mut Document, color: &str) -> NodeId {
    document.new_node(
        NodeKind::Element {
            name: "font".to_owned(),
            namespace: Some(HTML_NAMESPACE.to_owned()),
            attributes: vec![Attribute {
                name: "color".to_owned(),
                value: color.to_owned(),
                namespace: None,
            }],
        },
        None,
    )
}

fn elements(afe: &ActiveFormattingElements) -> Vec<NodeId> {
    afe.entries
        .iter()
        .filter_map(|entry| match entry {
            FormattingEntry::Element(node) => Some(*node),
            FormattingEntry::Marker => None,
        })
        .collect()
}

#[test]
fn noahs_ark_clause_removes_the_earliest_of_four_identical_elements() {
    let mut document = Document::new();
    let mut afe = ActiveFormattingElements::new();
    let nodes: Vec<_> = (0..4)
        .map(|_| font_with_color(&mut document, "red"))
        .collect();
    for &node in &nodes {
        afe.push(&document, node);
    }

    assert_eq!(elements(&afe), vec![nodes[1], nodes[2], nodes[3]]);
}

#[test]
fn noahs_ark_clause_ignores_elements_with_different_attributes() {
    let mut document = Document::new();
    let mut afe = ActiveFormattingElements::new();
    let red: Vec<_> = (0..3)
        .map(|_| font_with_color(&mut document, "red"))
        .collect();
    let blue = font_with_color(&mut document, "blue");
    for &node in &red {
        afe.push(&document, node);
    }
    afe.push(&document, blue);

    assert_eq!(elements(&afe).len(), 4);
}

#[test]
fn noahs_ark_clause_only_counts_entries_after_the_last_marker() {
    let mut document = Document::new();
    let mut afe = ActiveFormattingElements::new();
    for _ in 0..3 {
        let node = font_with_color(&mut document, "red");
        afe.push(&document, node);
    }
    afe.push_marker();
    let node = font_with_color(&mut document, "red");
    afe.push(&document, node);

    assert_eq!(afe.entries.len(), 5);
}

#[test]
fn clear_up_to_last_marker_removes_the_marker_and_everything_after_it() {
    let mut document = Document::new();
    let mut afe = ActiveFormattingElements::new();
    let before = font_with_color(&mut document, "red");
    afe.push(&document, before);
    afe.push_marker();
    let after = font_with_color(&mut document, "blue");
    afe.push(&document, after);

    afe.clear_up_to_last_marker();

    assert_eq!(elements(&afe), vec![before]);
}

fn tag(name: &str) -> TagToken {
    TagToken {
        name: name.to_owned(),
        self_closing: false,
        attributes: vec![],
    }
}

fn bootstrap_html(builder: &mut TreeBuilder) -> NodeId {
    let root = builder.document.root();
    let html = builder.document.new_node(
        NodeKind::Element {
            name: "html".to_owned(),
            namespace: Some(HTML_NAMESPACE.to_owned()),
            attributes: vec![],
        },
        None,
    );
    builder.document.append_child(root, html);
    builder.open_elements.push(html);
    html
}

#[test]
fn reconstruct_does_nothing_when_the_list_is_empty() {
    let mut builder = TreeBuilder::new();
    bootstrap_html(&mut builder);
    builder.insert_html_element(&tag("body"), None);
    let stack_before = builder.open_elements.current_node();

    builder.reconstruct_the_active_formatting_elements();

    assert_eq!(builder.open_elements.current_node(), stack_before);
}

#[test]
fn reconstruct_does_nothing_when_the_last_entry_is_still_open() {
    let mut builder = TreeBuilder::new();
    bootstrap_html(&mut builder);
    builder.insert_html_element(&tag("body"), None);
    let b = builder.insert_html_element(&tag("b"), None);
    builder
        .active_formatting_elements
        .push(&builder.document, b);

    builder.reconstruct_the_active_formatting_elements();

    assert_eq!(builder.open_elements.current_node(), Some(b));
}

#[test]
fn reconstruct_reopens_a_single_implicitly_closed_formatting_element() {
    let mut builder = TreeBuilder::new();
    bootstrap_html(&mut builder);
    let body = builder.insert_html_element(&tag("body"), None);
    let b = builder.insert_html_element(&tag("b"), None);
    builder
        .active_formatting_elements
        .push(&builder.document, b);
    builder.open_elements.pop();

    builder.reconstruct_the_active_formatting_elements();

    let new_b = builder
        .open_elements
        .current_node()
        .expect("reconstruct should have pushed a new element");
    assert_ne!(new_b, b, "must be a freshly created node, not the old one");
    assert_eq!(
        builder.document.children(body).collect(),
        vec![b, new_b]
    );
    assert_eq!(
        builder.document.node(new_b).kind,
        NodeKind::Element {
            name: "b".to_owned(),
            namespace: Some(HTML_NAMESPACE.to_owned()),
            attributes: vec![],
        }
    );
    assert_eq!(
        FormattingEntry::Element(new_b),
        *builder.active_formatting_elements.entries.last().unwrap()
    );
}

#[test]
fn reconstruct_reopens_nested_formatting_elements_in_the_original_order() {
    let mut builder = TreeBuilder::new();
    bootstrap_html(&mut builder);
    let body = builder.insert_html_element(&tag("body"), None);
    let b = builder.insert_html_element(&tag("b"), None);
    builder
        .active_formatting_elements
        .push(&builder.document, b);
    let i = builder.insert_html_element(&tag("i"), None);
    builder
        .active_formatting_elements
        .push(&builder.document, i);
    builder.open_elements.pop();
    builder.open_elements.pop();

    builder.reconstruct_the_active_formatting_elements();

    let body_children: Vec<_> = builder.document.children(body).collect();
    assert_eq!(body_children.len(), 2);
    assert_eq!(body_children[0], b);
    assert_eq!(builder.document.children(b).collect(), vec![i]);
    let new_b = body_children[1];
    assert_eq!(
        builder.document.node(new_b).kind,
        NodeKind::Element {
            name: "b".to_owned(),
            namespace: Some(HTML_NAMESPACE.to_owned()),
            attributes: vec![],
        }
    );
    let new_b_children: Vec<_> = builder.document.children(new_b).collect();
    assert_eq!(new_b_children.len(), 1);
    assert_eq!(
        builder.document.node(new_b_children[0]).kind,
        NodeKind::Element {
            name: "i".to_owned(),
            namespace: Some(HTML_NAMESPACE.to_owned()),
            attributes: vec![],
        }
    );
    assert_eq!(
        builder.open_elements.current_node(),
        Some(new_b_children[0])
    );
}
