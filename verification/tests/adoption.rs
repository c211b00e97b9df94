//! The adoption agency algorithm.
use html5_parser::tokenizer::TagToken;
use html5_parser::tree_builder::builder::TreeBuilder;
use html5_parser::tree_builder::names::HTML_NAMESPACE;
use html5_parser::{NodeId, NodeKind};

fn tag(name: &str) -> TagToken {
    TagToken {
        name: name.to_owned(),
        self_closing: false,
        attributes: vec![],
    }
}

fn bootstrap_html(builder: &mut TreeBuilder) -> NodeId {
    let root = builder.document.root();
    let html = builder.document.new_node(
        NodeKind::Element {
            name: "html".to_owned(),
            namespace: Some(HTML_NAMESPACE.to_owned()),
            attributes: vec![],
        },
        None,
    );
    builder.document.append_child(root, html);
    builder.open_elements.push(html);
    html
}

#[test]
fn current_node_matching_and_not_active_is_just_popped() {
    let mut builder = TreeBuilder::new();
    bootstrap_html(&mut builder);
    let body = builder.insert_html_element(&tag("body"), None);
    let b = builder.insert_html_element(&tag("b"), None);

    builder.adoption_agency_algorithm(&tag("b"));

    assert_eq!(builder.open_elements.current_node(), Some(body));
    assert_eq!(builder.document.children(body).collect(), vec![b]);
}

#[test]
fn no_furthest_block_pops_up_to_and_including_the_formatting_element() {
    let mut builder = TreeBuilder::new();
    bootstrap_html(&mut builder);
    let body = builder.insert_html_element(&tag("body"), None);
    let p = builder.insert_html_element(&tag("p"), None);
    let b = builder.insert_html_element(&tag("b"), None);
    builder
        .active_formatting_elements
        .push(&builder.document, b);

    builder.adoption_agency_algorithm(&tag("b"));

    assert_eq!(builder.open_elements.current_node(), Some(p));
    assert!(!builder.open_elements.contains(b));
    assert!(builder.active_formatting_elements.entries.is_empty());
    assert_eq!(builder.document.children(p).collect(), vec![b]);
    assert_eq!(builder.document.children(body).collect(), vec![p]);
}

#[test]
fn not_in_scope_returns_without_changing_the_tree() {
    let mut builder = TreeBuilder::new();
    bootstrap_html(&mut builder);
    builder.insert_html_element(&tag("body"), None);
    let b = builder.insert_html_element(&tag("b"), None);
    builder
        .active_formatting_elements
        .push(&builder.document, b);
    let table = builder.insert_html_element(&tag("table"), None);

    builder.adoption_agency_algorithm(&tag("b"));

    assert_eq!(builder.open_elements.current_node(), Some(table));
    assert!(builder.open_elements.contains(b));
    assert_eq!(
        builder.document.children(b).collect(),
        vec![table]
    );
}

#[test]
fn relocates_special_content_out_of_the_misnested_formatting_element() {
    let mut builder = TreeBuilder::new();
    bootstrap_html(&mut builder);
    let body = builder.insert_html_element(&tag("body"), None);
    let b = builder.insert_html_element(&tag("b"), None);
    builder
        .active_formatting_elements
        .push(&builder.document, b);
    let div = builder.insert_html_element(&tag("div"), None);
    let inner_text = builder.document.new_node(
        NodeKind::Text {
            content: "inner".to_owned(),
        },
        None,
    );
    builder.document.append_child(div, inner_text);

    builder.adoption_agency_algorithm(&tag("b"));

    assert_eq!(builder.open_elements.current_node(), Some(div));
    assert!(!builder.open_elements.contains(b));
    assert!(builder.active_formatting_elements.entries.is_empty());

    let body_children: Vec<_> = builder.document.children(body).collect();
    assert_eq!(body_children, vec![b, div]);
    assert_eq!(builder.document.children(b).count(), 0);

    let div_children: Vec<_> = builder.document.children(div).collect();
    assert_eq!(div_children.len(), 1);
    let new_b = div_children[0];
    assert_ne!(new_b, b);
    assert_eq!(
        builder.document.node(new_b).kind,
        NodeKind::Element {
            name: "b".to_owned(),
            namespace: Some(HTML_NAMESPACE.to_owned()),
            attributes: vec![],
        }
    );
    assert_eq!(
        builder.document.children(new_b).collect(),
        vec![inner_text]
    );
}

#[test]
fn any_other_end_tag_pops_up_to_a_matching_ancestor() {
    let mut builder = TreeBuilder::new();
    bootstrap_html(&mut builder);
    let body = builder.insert_html_element(&tag("body"), None);
    let div = builder.insert_html_element(&tag("div"), None);
    builder.insert_html_element(&tag("span"), None);

    builder.any_other_end_tag_in_body(&tag("div"));

    assert_eq!(builder.open_elements.current_node(), Some(body));
    assert!(!builder.open_elements.contains(div));
}

#[test]
fn any_other_end_tag_gives_up_at_the_first_special_element() {
    let mut builder = TreeBuilder::new();
    bootstrap_html(&mut builder);
    builder.insert_html_element(&tag("body"), None);
    builder.insert_html_element(&tag("div"), None);
    let span = builder.insert_html_element(&tag("span"), None);

    builder.any_other_end_tag_in_body(&tag("x"));

    assert_eq!(builder.open_elements.current_node(), Some(span));
}
