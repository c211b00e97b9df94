//! Inserting nodes into the document.
use html5_parser::tokenizer::{ExternalState, TagToken};
use html5_parser::tree_builder::builder::TreeBuilder;
use html5_parser::tree_builder::model::{GenericTextElementKind, InsertionLocation, InsertionMode};
use html5_parser::tree_builder::names::HTML_NAMESPACE;
use html5_parser::{NodeId, NodeKind};

fn tag(name: &str) -> TagToken {
    TagToken {
        name: name.to_owned(),
        self_closing: false,
        attributes: vec![],
    }
}

fn bootstrap_html(builder: &mut TreeBuilder) -> NodeId {
    let root = builder.document.root();
    let html = builder.document.new_node(
        NodeKind::Element {
            name: "html".to_owned(),
            namespace: Some(HTML_NAMESPACE.to_owned()),
            attributes: vec![],
        },
        None,
    );
    builder.document.append_child(root, html);
    builder.open_elements.push(html);
    html
}

fn only_child_kind(builder: &TreeBuilder, parent: NodeId) -> NodeKind {
    let children: Vec<_> = builder.document.children(parent).collect();
    assert_eq!(children.len(), 1, "expected exactly one child");
    builder.document.node(children[0]).kind.clone()
}

#[test]
fn insert_html_element_nests_under_the_current_node() {
    let mut builder = TreeBuilder::new();
    let html = bootstrap_html(&mut builder);
    let body = builder.insert_html_element(&tag("body"), None);

    assert_eq!(
        builder.document.children(html).collect(),
        vec![body]
    );
    assert_eq!(builder.open_elements.current_node(), Some(body));
    assert_eq!(
        builder.document.node(body).kind,
        NodeKind::Element {
            name: "body".to_owned(),
            namespace: Some(HTML_NAMESPACE.to_owned()),
            attributes: vec![],
        }
    );
}

#[test]
fn generic_rcdata_element_parsing_algorithm() {
    let mut builder = TreeBuilder::new();
    bootstrap_html(&mut builder);
    let body = builder.insert_html_element(&tag("body"), None);
    builder.insertion_mode = InsertionMode::InBody;

    let (title, external_state) = builder.generic_text_element_parsing_algorithm(
        &tag("title"),
        GenericTextElementKind::Rcdata,
        None,
    );

    assert_eq!(external_state, ExternalState::RcData);
    assert_eq!(
        builder.document.children(body).collect(),
        vec![title]
    );
    assert_eq!(builder.open_elements.current_node(), Some(title));
    assert_eq!(
        builder.original_insertion_mode,
        Some(InsertionMode::InBody)
    );
    assert_eq!(builder.insertion_mode, InsertionMode::Text);
}

#[test]
fn generic_rawtext_element_parsing_algorithm() {
    let mut builder = TreeBuilder::new();
    bootstrap_html(&mut builder);
    builder.insert_html_element(&tag("head"), None);
    builder.insertion_mode = InsertionMode::InHead;

    let (style, external_state) = builder.generic_text_element_parsing_algorithm(
        &tag("style"),
        GenericTextElementKind::RawText,
        None,
    );

    assert_eq!(external_state, ExternalState::RawText);
    assert_eq!(builder.open_elements.current_node(), Some(style));
    assert_eq!(
        builder.original_insertion_mode,
        Some(InsertionMode::InHead)
    );
    assert_eq!(builder.insertion_mode, InsertionMode::Text);
}

#[test]
fn a_second_element_is_never_appended_directly_to_the_document_root() {
    let mut builder = TreeBuilder::new();
    let root = builder.document.root();
    bootstrap_html(&mut builder);
    let second_html = builder.document.new_node(
        NodeKind::Element {
            name: "html".to_owned(),
            namespace: Some(HTML_NAMESPACE.to_owned()),
            attributes: vec![],
        },
        None,
    );

    builder.insert_element_at_adjusted_insertion_location(
        second_html,
        InsertionLocation {
            parent: root,
            before: None,
        },
    );

    assert_eq!(builder.document.children(root).count(), 1);
}

#[test]
fn insert_character_merges_into_an_adjacent_text_node() {
    let mut builder = TreeBuilder::new();
    let html = bootstrap_html(&mut builder);
    builder.insert_character('a', None);
    builder.insert_character('b', None);

    assert_eq!(
        only_child_kind(&builder, html),
        NodeKind::Text {
            content: "ab".to_owned()
        }
    );
}

#[test]
fn insert_character_after_an_element_creates_a_new_text_node() {
    let mut builder = TreeBuilder::new();
    let html = bootstrap_html(&mut builder);
    builder.insert_html_element(&tag("body"), None);
    builder.open_elements.pop();
    builder.insert_character('x', None);

    let children: Vec<_> = builder.document.children(html).collect();
    assert_eq!(children.len(), 2);
    assert_eq!(
        builder.document.node(children[1]).kind,
        NodeKind::Text {
            content: "x".to_owned()
        }
    );
}

#[test]
fn insert_comment_and_processing_instruction() {
    let mut builder = TreeBuilder::new();
    let html = bootstrap_html(&mut builder);
    builder.insert_comment("hi".to_owned(), None);
    builder.insert_processing_instruction("target".to_owned(), "data".to_owned(), None);

    let children: Vec<_> = builder.document.children(html).collect();
    assert_eq!(
        builder.document.node(children[0]).kind,
        NodeKind::Comment {
            content: "hi".to_owned()
        }
    );
    assert_eq!(
        builder.document.node(children[1]).kind,
        NodeKind::ProcessingInstruction {
            target: "target".to_owned(),
            data: "data".to_owned(),
        }
    );
}

#[test]
fn foster_parenting_inserts_before_the_table_not_inside_it() {
    let mut builder = TreeBuilder::new();
    let html = bootstrap_html(&mut builder);
    let table = builder.insert_html_element(&tag("table"), None);
    builder.foster_parenting = true;
    builder.insert_character('x', None);

    assert_eq!(builder.document.children(table).count(), 0);
    let html_children: Vec<_> = builder.document.children(html).collect();
    assert_eq!(html_children.len(), 2);
    assert_eq!(html_children[1], table);
    assert_eq!(
        builder.document.node(html_children[0]).kind,
        NodeKind::Text {
            content: "x".to_owned()
        }
    );
}

#[test]
fn foster_parenting_with_no_table_falls_back_to_the_html_element() {
    let mut builder = TreeBuilder::new();
    let html = bootstrap_html(&mut builder);
    builder.insert_html_element(&tag("tbody"), None);
    builder.foster_parenting = true;
    builder.insert_character('x', None);

    let html_children: Vec<_> = builder.document.children(html).collect();
    assert_eq!(
        builder.document.node(html_children[1]).kind,
        NodeKind::Text {
            content: "x".to_owned()
        }
    );
}
