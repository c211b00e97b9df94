//! The rules of the insertion modes.
use html5_parser::tokenizer::{Attribute, DoctypeToken, ExternalState, TagToken, TokenKind};
use html5_parser::tree_builder::builder::TreeBuilder;
use html5_parser::tree_builder::formatting::FormattingEntry;
use html5_parser::tree_builder::model::{InsertionMode, TokenOutcome};
use html5_parser::tree_builder::names::{
    HTML_NAMESPACE, MATHML_NAMESPACE, SVG_NAMESPACE, XLINK_NAMESPACE,
};
use html5_parser::tree_builder::quirks::QuirksMode;
use html5_parser::{NodeId, NodeKind, Position};

fn pos() -> Position {
    Position {
        line: 1,
        column: 1,
        byte_offset: 0,
    }
}

fn doctype(
    name: Option<&str>,
    public_identifier: Option<&str>,
    system_identifier: Option<&str>,
) -> TokenKind {
    TokenKind::Doctype(DoctypeToken {
        name: name.map(str::to_owned),
        public_identifier: public_identifier.map(str::to_owned),
        system_identifier: system_identifier.map(str::to_owned),
        force_quirks: false,
    })
}

fn start_tag(name: &str) -> TokenKind {
    TokenKind::StartTag(TagToken {
        name: name.to_owned(),
        self_closing: false,
        attributes: vec![],
    })
}

fn start_tag_with_attrs(name: &str, attrs: &[(&str, &str)]) -> TokenKind {
    TokenKind::StartTag(TagToken {
        name: name.to_owned(),
        self_closing: false,
        attributes: attrs
            .iter()
            .map(|&(name, value)| Attribute {
                name: name.to_owned(),
                value: value.to_owned(),
            })
            .collect(),
    })
}

fn end_tag(name: &str) -> TokenKind {
    TokenKind::EndTag(TagToken {
        name: name.to_owned(),
        self_closing: false,
        attributes: vec![],
    })
}

#[test]
fn initial_mode_ignores_whitespace() {
    let mut builder = TreeBuilder::new();
    builder.process_token(&TokenKind::Character(' '), pos());

    assert_eq!(builder.insertion_mode, InsertionMode::Initial);
    assert_eq!(
        builder.document.children(builder.document.root()).count(),
        0
    );
}

#[test]
fn initial_mode_inserts_comment_as_a_document_child() {
    let mut builder = TreeBuilder::new();
    builder.process_token(&TokenKind::Comment("hi".to_owned()), pos());

    let root = builder.document.root();
    let children: Vec<_> = builder.document.children(root).collect();
    assert_eq!(
        builder.document.node(children[0]).kind,
        NodeKind::Comment {
            content: "hi".to_owned()
        }
    );
    assert_eq!(builder.insertion_mode, InsertionMode::Initial);
}

#[test]
fn initial_mode_doctype_inserts_a_doctype_node_and_switches_mode() {
    let mut builder = TreeBuilder::new();
    builder.process_token(&doctype(Some("html"), None, None), pos());

    let root = builder.document.root();
    let children: Vec<_> = builder.document.children(root).collect();
    assert_eq!(
        builder.document.node(children[0]).kind,
        NodeKind::Doctype {
            name: Some("html".to_owned()),
            public_identifier: Some(String::new()),
            system_identifier: Some(String::new()),
        }
    );
    assert_eq!(builder.quirks_mode, QuirksMode::NoQuirks);
    assert_eq!(builder.insertion_mode, InsertionMode::BeforeHtml);
}

#[test]
fn initial_mode_doctype_records_quirks_mode() {
    let mut builder = TreeBuilder::new();
    builder.process_token(&doctype(Some("html"), Some("HTML"), None), pos());

    assert_eq!(builder.quirks_mode, QuirksMode::Quirks);
}

#[test]
fn end_to_end_doctype_then_html_then_head_reaches_in_head() {
    let mut builder = TreeBuilder::new();
    builder.process_token(&doctype(Some("html"), None, None), pos());
    builder.process_token(&start_tag_with_attrs("html", &[("lang", "en")]), pos());
    builder.process_token(&start_tag("head"), pos());

    assert_eq!(builder.quirks_mode, QuirksMode::NoQuirks);
    assert_eq!(builder.insertion_mode, InsertionMode::InHead);

    let root = builder.document.root();
    let root_children: Vec<_> = builder.document.children(root).collect();
    assert_eq!(root_children.len(), 2);
    let html = root_children[1];
    assert_eq!(
        builder.document.node(html).kind,
        NodeKind::Element {
            name: "html".to_owned(),
            namespace: Some(HTML_NAMESPACE.to_owned()),
            attributes: vec![html5_parser::Attribute {
                name: "lang".to_owned(),
                value: "en".to_owned(),
                namespace: None,
            }],
        }
    );
    let head = builder.document.children(html).next().unwrap();
    assert_eq!(
        builder.document.node(head).kind,
        NodeKind::Element {
            name: "head".to_owned(),
            namespace: Some(HTML_NAMESPACE.to_owned()),
            attributes: vec![],
        }
    );
    assert_eq!(builder.head_element_pointer, Some(head));
    assert_eq!(builder.open_elements.current_node(), Some(head));
}

#[test]
fn end_to_end_without_a_doctype_sets_quirks_mode_and_synthesizes_html_and_head() {
    let mut builder = TreeBuilder::new();
    builder.process_token(&start_tag("head"), pos());

    assert_eq!(builder.quirks_mode, QuirksMode::Quirks);
    assert_eq!(builder.insertion_mode, InsertionMode::InHead);

    let root = builder.document.root();
    let html = builder.document.children(root).next().unwrap();
    assert_eq!(
        builder.document.node(html).kind,
        NodeKind::Element {
            name: "html".to_owned(),
            namespace: Some(HTML_NAMESPACE.to_owned()),
            attributes: vec![],
        }
    );
    let head = builder.document.children(html).next().unwrap();
    assert_eq!(builder.head_element_pointer, Some(head));
    assert!(builder.open_elements.contains(html));
}

#[test]
fn before_html_mode_anything_else_synthesizes_html_and_reprocesses() {
    let mut builder = TreeBuilder::new();
    builder.insertion_mode = InsertionMode::BeforeHtml;

    let outcome = builder.process_token_before_html(&end_tag("br"), pos());

    assert!(matches!(outcome, TokenOutcome::Reprocess));
    assert_eq!(builder.insertion_mode, InsertionMode::BeforeHead);
    let root = builder.document.root();
    let html = builder.document.children(root).next().unwrap();
    assert_eq!(
        builder.document.node(html).kind,
        NodeKind::Element {
            name: "html".to_owned(),
            namespace: Some(HTML_NAMESPACE.to_owned()),
            attributes: vec![],
        }
    );
    assert_eq!(builder.open_elements.current_node(), Some(html));
}

#[test]
fn before_head_mode_html_start_tag_merges_new_attributes_only() {
    let mut builder = TreeBuilder::new();
    builder.insertion_mode = InsertionMode::BeforeHtml;
    builder.process_token(&start_tag_with_attrs("html", &[("lang", "en")]), pos());
    assert_eq!(builder.insertion_mode, InsertionMode::BeforeHead);

    builder.process_token_before_head(
        &start_tag_with_attrs("html", &[("lang", "de"), ("dir", "ltr")]),
        pos(),
    );

    let root = builder.document.root();
    let html = builder.document.children(root).next().unwrap();
    let NodeKind::Element { attributes, .. } = &builder.document.node(html).kind else {
        unreachable!()
    };
    assert_eq!(attributes.len(), 2);
    assert!(
        attributes
            .iter()
            .any(|a| a.name == "lang" && a.value == "en")
    );
    assert!(
        attributes
            .iter()
            .any(|a| a.name == "dir" && a.value == "ltr")
    );
}

fn bootstrap_in_head(builder: &mut TreeBuilder) -> (NodeId, NodeId) {
    builder.process_token(&start_tag("head"), pos());
    let root = builder.document.root();
    let html = builder.document.children(root).next().unwrap();
    let head = builder.open_elements.current_node().unwrap();
    (html, head)
}

#[test]
fn in_head_inserts_whitespace_characters() {
    let mut builder = TreeBuilder::new();
    let (_, head) = bootstrap_in_head(&mut builder);

    builder.process_token(&TokenKind::Character(' '), pos());

    let children: Vec<_> = builder.document.children(head).collect();
    assert_eq!(
        builder.document.node(children[0]).kind,
        NodeKind::Text {
            content: " ".to_owned()
        }
    );
}

#[test]
fn in_head_void_like_elements_are_inserted_then_immediately_popped() {
    let mut builder = TreeBuilder::new();
    let (_, head) = bootstrap_in_head(&mut builder);

    builder.process_token(&start_tag("meta"), pos());

    let children: Vec<_> = builder.document.children(head).collect();
    assert_eq!(children.len(), 1);
    assert_eq!(
        builder.document.node(children[0]).kind,
        NodeKind::Element {
            name: "meta".to_owned(),
            namespace: Some(HTML_NAMESPACE.to_owned()),
            attributes: vec![],
        }
    );
    assert_eq!(builder.open_elements.current_node(), Some(head));
}

#[test]
fn in_head_title_switches_to_text_mode_with_rcdata() {
    let mut builder = TreeBuilder::new();
    let (_, head) = bootstrap_in_head(&mut builder);

    let state = builder.process_token(&start_tag("title"), pos());

    assert_eq!(state, Some(ExternalState::RcData));
    assert_eq!(builder.insertion_mode, InsertionMode::Text);
    assert_eq!(builder.original_insertion_mode, Some(InsertionMode::InHead));
    let title = builder.open_elements.current_node().unwrap();
    assert_eq!(
        builder.document.children(head).collect(),
        vec![title]
    );
}

#[test]
fn in_head_script_switches_to_text_mode_with_script_data() {
    let mut builder = TreeBuilder::new();
    bootstrap_in_head(&mut builder);

    let state = builder.process_token(&start_tag("script"), pos());

    assert_eq!(state, Some(ExternalState::ScriptData));
    assert_eq!(builder.insertion_mode, InsertionMode::Text);
}

#[test]
fn in_head_noscript_start_tag_switches_mode() {
    let mut builder = TreeBuilder::new();
    bootstrap_in_head(&mut builder);

    builder.process_token(&start_tag("noscript"), pos());

    assert_eq!(builder.insertion_mode, InsertionMode::InHeadNoscript);
}

#[test]
fn in_head_end_tag_head_pops_and_switches_to_after_head() {
    let mut builder = TreeBuilder::new();
    let (html, head) = bootstrap_in_head(&mut builder);

    builder.process_token(&end_tag("head"), pos());

    assert_eq!(builder.insertion_mode, InsertionMode::AfterHead);
    assert_eq!(builder.open_elements.current_node(), Some(html));
    assert!(!builder.open_elements.contains(head));
}

#[test]
fn in_head_template_round_trips_through_the_stack() {
    let mut builder = TreeBuilder::new();
    let (_, head) = bootstrap_in_head(&mut builder);

    builder.process_token(&start_tag("template"), pos());
    let template = builder.open_elements.current_node().unwrap();
    assert_ne!(template, head);

    builder.process_token(&end_tag("template"), pos());

    assert_eq!(builder.open_elements.current_node(), Some(head));
    assert!(!builder.open_elements.contains(template));
    assert_eq!(
        builder.document.children(head).collect(),
        vec![template]
    );
}

#[test]
fn in_head_noscript_delegates_link_to_in_head() {
    let mut builder = TreeBuilder::new();
    bootstrap_in_head(&mut builder);
    builder.process_token(&start_tag("noscript"), pos());
    let noscript = builder.open_elements.current_node().unwrap();

    builder.process_token(&start_tag("link"), pos());

    assert_eq!(builder.open_elements.current_node(), Some(noscript));
    let children: Vec<_> = builder.document.children(noscript).collect();
    assert_eq!(children.len(), 1);
    assert_eq!(
        builder.document.node(children[0]).kind,
        NodeKind::Element {
            name: "link".to_owned(),
            namespace: Some(HTML_NAMESPACE.to_owned()),
            attributes: vec![],
        }
    );
}

#[test]
fn in_head_noscript_end_tag_noscript_returns_to_in_head() {
    let mut builder = TreeBuilder::new();
    let (_, head) = bootstrap_in_head(&mut builder);
    builder.process_token(&start_tag("noscript"), pos());

    builder.process_token(&end_tag("noscript"), pos());

    assert_eq!(builder.insertion_mode, InsertionMode::InHead);
    assert_eq!(builder.open_elements.current_node(), Some(head));
}

#[test]
fn after_head_body_start_tag_switches_to_in_body() {
    let mut builder = TreeBuilder::new();
    let (html, head) = bootstrap_in_head(&mut builder);
    builder.process_token(&end_tag("head"), pos());
    assert_eq!(builder.insertion_mode, InsertionMode::AfterHead);

    builder.process_token(&start_tag("body"), pos());

    assert_eq!(builder.insertion_mode, InsertionMode::InBody);
    let body = builder.open_elements.current_node().unwrap();
    assert_eq!(
        builder.document.children(html).collect(),
        vec![head, body]
    );
}

#[test]
fn after_head_delegates_link_by_temporarily_repushing_head() {
    let mut builder = TreeBuilder::new();
    let (_, head) = bootstrap_in_head(&mut builder);
    builder.process_token(&end_tag("head"), pos());
    assert_eq!(builder.insertion_mode, InsertionMode::AfterHead);

    builder.process_token(&start_tag("link"), pos());

    assert!(!builder.open_elements.contains(head));
    let children: Vec<_> = builder.document.children(head).collect();
    assert_eq!(children.len(), 1);
    assert_eq!(
        builder.document.node(children[0]).kind,
        NodeKind::Element {
            name: "link".to_owned(),
            namespace: Some(HTML_NAMESPACE.to_owned()),
            attributes: vec![],
        }
    );
    assert_eq!(builder.insertion_mode, InsertionMode::AfterHead);
}

#[test]
fn after_head_anything_else_synthesizes_body_and_switches_mode() {
    let mut builder = TreeBuilder::new();
    let (html, head) = bootstrap_in_head(&mut builder);
    builder.process_token(&end_tag("head"), pos());

    let outcome = builder.process_token_after_head(&TokenKind::Character('x'), pos());

    assert!(matches!(outcome, TokenOutcome::Reprocess));
    assert_eq!(builder.insertion_mode, InsertionMode::InBody);
    let body = builder.open_elements.current_node().unwrap();
    assert_eq!(
        builder.document.node(body).kind,
        NodeKind::Element {
            name: "body".to_owned(),
            namespace: Some(HTML_NAMESPACE.to_owned()),
            attributes: vec![],
        }
    );
    assert_eq!(
        builder.document.children(html).collect(),
        vec![head, body]
    );
}

fn bootstrap_in_body(builder: &mut TreeBuilder) -> (NodeId, NodeId) {
    builder.process_token(&start_tag("body"), pos());
    let root = builder.document.root();
    let html = builder.document.children(root).next().unwrap();
    let body = builder.open_elements.current_node().unwrap();
    (html, body)
}

#[test]
fn in_body_character_sets_frameset_ok_and_ignores_nul() {
    let mut builder = TreeBuilder::new();
    let (_, body) = bootstrap_in_body(&mut builder);
    assert!(builder.frameset_ok);

    builder.process_token(&TokenKind::Character('\0'), pos());
    assert_eq!(builder.document.children(body).count(), 0);

    builder.process_token(&TokenKind::Character('x'), pos());
    assert!(!builder.frameset_ok);
    let children: Vec<_> = builder.document.children(body).collect();
    assert_eq!(
        builder.document.node(children[0]).kind,
        NodeKind::Text {
            content: "x".to_owned()
        }
    );
}

#[test]
fn in_body_div_closes_an_open_p_in_button_scope() {
    let mut builder = TreeBuilder::new();
    let (_, body) = bootstrap_in_body(&mut builder);
    builder.process_token(&start_tag("p"), pos());
    let p = builder.open_elements.current_node().unwrap();

    builder.process_token(&start_tag("div"), pos());

    assert!(!builder.open_elements.contains(p));
    let div = builder.open_elements.current_node().unwrap();
    assert_eq!(
        builder.document.children(body).collect(),
        vec![p, div]
    );
}

#[test]
fn in_body_heading_pops_a_currently_open_heading() {
    let mut builder = TreeBuilder::new();
    let (_, body) = bootstrap_in_body(&mut builder);
    builder.process_token(&start_tag("h1"), pos());
    let h1 = builder.open_elements.current_node().unwrap();

    builder.process_token(&start_tag("h2"), pos());

    assert!(!builder.open_elements.contains(h1));
    let h2 = builder.open_elements.current_node().unwrap();
    assert_eq!(
        builder.document.children(body).collect(),
        vec![h1, h2]
    );
}

#[test]
fn in_body_formatting_start_tag_pushes_onto_active_formatting_elements() {
    let mut builder = TreeBuilder::new();
    bootstrap_in_body(&mut builder);

    builder.process_token(&start_tag("b"), pos());

    let b = builder.open_elements.current_node().unwrap();
    assert!(matches!(
        builder.active_formatting_elements.entries.last(),
        Some(FormattingEntry::Element(node)) if *node == b
    ));
}

#[test]
fn in_body_end_tag_b_runs_the_adoption_agency_algorithm() {
    let mut builder = TreeBuilder::new();
    let (_, body) = bootstrap_in_body(&mut builder);
    builder.process_token(&start_tag("b"), pos());
    let b = builder.open_elements.current_node().unwrap();

    builder.process_token(&end_tag("b"), pos());

    assert!(!builder.open_elements.contains(b));
    assert_eq!(builder.open_elements.current_node(), Some(body));
}

#[test]
fn in_body_second_a_start_tag_closes_the_first_via_adoption_agency() {
    let mut builder = TreeBuilder::new();
    bootstrap_in_body(&mut builder);
    builder.process_token(&start_tag("a"), pos());
    let a1 = builder.open_elements.current_node().unwrap();

    builder.process_token(&start_tag("a"), pos());

    let a2 = builder.open_elements.current_node().unwrap();
    assert_ne!(a1, a2);
    assert!(!builder.open_elements.contains(a1));
    assert!(matches!(
        builder.active_formatting_elements.entries.last(),
        Some(FormattingEntry::Element(node)) if *node == a2
    ));
}

#[test]
fn in_body_void_element_is_inserted_then_immediately_popped() {
    let mut builder = TreeBuilder::new();
    let (_, body) = bootstrap_in_body(&mut builder);

    builder.process_token(&start_tag("br"), pos());

    let children: Vec<_> = builder.document.children(body).collect();
    assert_eq!(children.len(), 1);
    assert_eq!(
        builder.document.node(children[0]).kind,
        NodeKind::Element {
            name: "br".to_owned(),
            namespace: Some(HTML_NAMESPACE.to_owned()),
            attributes: vec![],
        }
    );
    assert_eq!(builder.open_elements.current_node(), Some(body));
    assert!(!builder.frameset_ok);
}

#[test]
fn in_body_br_end_tag_is_treated_as_a_start_tag() {
    let mut builder = TreeBuilder::new();
    let (_, body) = bootstrap_in_body(&mut builder);

    builder.process_token(&end_tag("br"), pos());

    let children: Vec<_> = builder.document.children(body).collect();
    assert_eq!(children.len(), 1);
    assert_eq!(
        builder.document.node(children[0]).kind,
        NodeKind::Element {
            name: "br".to_owned(),
            namespace: Some(HTML_NAMESPACE.to_owned()),
            attributes: vec![],
        }
    );
}

#[test]
fn in_body_li_closes_a_previous_open_li() {
    let mut builder = TreeBuilder::new();
    let (_, body) = bootstrap_in_body(&mut builder);
    builder.process_token(&start_tag("ul"), pos());
    builder.process_token(&start_tag("li"), pos());
    let li1 = builder.open_elements.current_node().unwrap();

    builder.process_token(&start_tag("li"), pos());

    assert!(!builder.open_elements.contains(li1));
    let ul = builder.document.children(body).next().unwrap();
    let ul_children: Vec<_> = builder.document.children(ul).collect();
    assert_eq!(ul_children.len(), 2);
    assert_eq!(ul_children[0], li1);
}

#[test]
fn in_body_form_sets_pointer_and_ignores_a_second_form() {
    let mut builder = TreeBuilder::new();
    bootstrap_in_body(&mut builder);
    builder.process_token(&start_tag("form"), pos());
    let form1 = builder.open_elements.current_node().unwrap();
    assert_eq!(builder.form_element_pointer, Some(form1));

    builder.process_token(&start_tag("form"), pos());

    assert_eq!(builder.open_elements.current_node(), Some(form1));
    assert_eq!(builder.form_element_pointer, Some(form1));
}

#[test]
fn in_body_table_switches_insertion_mode() {
    let mut builder = TreeBuilder::new();
    bootstrap_in_body(&mut builder);

    builder.process_token(&start_tag("table"), pos());

    assert_eq!(builder.insertion_mode, InsertionMode::InTable);
    assert!(!builder.frameset_ok);
}

#[test]
fn in_body_plaintext_returns_plaintext_state_without_switching_mode() {
    let mut builder = TreeBuilder::new();
    bootstrap_in_body(&mut builder);

    let state = builder.process_token(&start_tag("plaintext"), pos());

    assert_eq!(state, Some(ExternalState::PlainText));
    assert_eq!(builder.insertion_mode, InsertionMode::InBody);
}

#[test]
fn in_body_textarea_switches_to_text_mode_and_skips_next_lf() {
    let mut builder = TreeBuilder::new();
    bootstrap_in_body(&mut builder);

    let state = builder.process_token(&start_tag("textarea"), pos());

    assert_eq!(state, Some(ExternalState::RcData));
    assert_eq!(builder.insertion_mode, InsertionMode::Text);
    assert!(builder.skip_next_line_feed);
    assert!(!builder.frameset_ok);
}

#[test]
fn in_body_pre_ignores_one_leading_line_feed() {
    let mut builder = TreeBuilder::new();
    bootstrap_in_body(&mut builder);
    builder.process_token(&start_tag("pre"), pos());
    let pre = builder.open_elements.current_node().unwrap();
    assert!(builder.skip_next_line_feed);

    builder.process_token(&TokenKind::Character('\n'), pos());
    assert_eq!(builder.document.children(pre).count(), 0);
    assert!(!builder.skip_next_line_feed);

    builder.process_token(&TokenKind::Character('x'), pos());
    assert_eq!(builder.document.children(pre).count(), 1);
}

#[test]
fn in_body_math_inserts_with_mathml_namespace() {
    let mut builder = TreeBuilder::new();
    bootstrap_in_body(&mut builder);

    builder.process_token(&start_tag("math"), pos());

    let math = builder.open_elements.current_node().unwrap();
    assert_eq!(
        builder.document.node(math).kind,
        NodeKind::Element {
            name: "math".to_owned(),
            namespace: Some(MATHML_NAMESPACE.to_owned()),
            attributes: vec![],
        }
    );
}

#[test]
fn in_body_any_other_start_tag_is_inserted_as_an_ordinary_element() {
    let mut builder = TreeBuilder::new();
    let (_, body) = bootstrap_in_body(&mut builder);

    builder.process_token(&start_tag("span"), pos());

    let span = builder.open_elements.current_node().unwrap();
    assert_eq!(
        builder.document.node(span).kind,
        NodeKind::Element {
            name: "span".to_owned(),
            namespace: Some(HTML_NAMESPACE.to_owned()),
            attributes: vec![],
        }
    );
    assert_eq!(
        builder.document.children(body).collect(),
        vec![span]
    );
}

#[test]
fn in_body_stray_table_section_start_tags_are_ignored() {
    let mut builder = TreeBuilder::new();
    let (_, body) = bootstrap_in_body(&mut builder);

    builder.process_token(&start_tag("tbody"), pos());

    assert_eq!(builder.document.children(body).count(), 0);
    assert_eq!(builder.open_elements.current_node(), Some(body));
}

#[test]
fn in_body_delegates_meta_to_in_head_rules() {
    let mut builder = TreeBuilder::new();
    let (_, body) = bootstrap_in_body(&mut builder);

    builder.process_token(&start_tag("meta"), pos());

    let children: Vec<_> = builder.document.children(body).collect();
    assert_eq!(children.len(), 1);
    assert_eq!(
        builder.document.node(children[0]).kind,
        NodeKind::Element {
            name: "meta".to_owned(),
            namespace: Some(HTML_NAMESPACE.to_owned()),
            attributes: vec![],
        }
    );
    assert_eq!(builder.open_elements.current_node(), Some(body));
}

#[test]
fn in_body_any_other_end_tag_pops_through_a_matching_ancestor() {
    let mut builder = TreeBuilder::new();
    let (_, body) = bootstrap_in_body(&mut builder);
    builder.process_token(&start_tag("custom-element"), pos());
    let custom = builder.open_elements.current_node().unwrap();

    builder.process_token(&end_tag("custom-element"), pos());

    assert!(!builder.open_elements.contains(custom));
    assert_eq!(builder.open_elements.current_node(), Some(body));
}

#[test]
fn text_mode_inserts_characters_into_the_rcdata_element() {
    let mut builder = TreeBuilder::new();
    bootstrap_in_body(&mut builder);
    builder.process_token(&start_tag("title"), pos());
    let title = builder.open_elements.current_node().unwrap();
    assert_eq!(builder.insertion_mode, InsertionMode::Text);

    builder.process_token(&TokenKind::Character('h'), pos());
    builder.process_token(&TokenKind::Character('i'), pos());

    let children: Vec<_> = builder.document.children(title).collect();
    assert_eq!(children.len(), 1);
    assert_eq!(
        builder.document.node(children[0]).kind,
        NodeKind::Text {
            content: "hi".to_owned()
        }
    );
}

#[test]
fn text_mode_end_tag_pops_and_restores_original_insertion_mode() {
    let mut builder = TreeBuilder::new();
    let (_, body) = bootstrap_in_body(&mut builder);
    builder.process_token(&start_tag("title"), pos());
    let title = builder.open_elements.current_node().unwrap();

    builder.process_token(&end_tag("nonsense"), pos());

    assert!(!builder.open_elements.contains(title));
    assert_eq!(builder.insertion_mode, InsertionMode::InBody);
    assert_eq!(builder.open_elements.current_node(), Some(body));
    assert_eq!(builder.original_insertion_mode, None);
}

#[test]
fn text_mode_eof_pops_and_reprocesses_in_the_original_mode() {
    let mut builder = TreeBuilder::new();
    let (_, body) = bootstrap_in_body(&mut builder);
    builder.process_token(&start_tag("title"), pos());
    let title = builder.open_elements.current_node().unwrap();

    builder.process_token(&TokenKind::Eof, pos());

    assert!(!builder.open_elements.contains(title));
    assert_eq!(builder.insertion_mode, InsertionMode::InBody);
    assert_eq!(builder.open_elements.current_node(), Some(body));
}

fn bootstrap_in_table(builder: &mut TreeBuilder) -> (NodeId, NodeId) {
    let (_, body) = bootstrap_in_body(builder);
    builder.process_token(&start_tag("table"), pos());
    let table = builder.open_elements.current_node().unwrap();
    (body, table)
}

#[test]
fn in_table_caption_switches_mode_and_pushes_a_marker() {
    let mut builder = TreeBuilder::new();
    let (_, table) = bootstrap_in_table(&mut builder);

    builder.process_token(&start_tag("caption"), pos());

    assert_eq!(builder.insertion_mode, InsertionMode::InCaption);
    let caption = builder.open_elements.current_node().unwrap();
    assert_eq!(
        builder.document.children(table).collect(),
        vec![caption]
    );
    assert!(matches!(
        builder.active_formatting_elements.entries.last(),
        Some(FormattingEntry::Marker)
    ));
}

#[test]
fn in_table_col_synthesizes_a_colgroup_and_reprocesses() {
    let mut builder = TreeBuilder::new();
    let (_, table) = bootstrap_in_table(&mut builder);

    builder.process_token(&start_tag("col"), pos());

    assert_eq!(builder.insertion_mode, InsertionMode::InColumnGroup);
    let colgroup = builder.document.children(table).next().unwrap();
    assert_eq!(
        builder.document.node(colgroup).kind,
        NodeKind::Element {
            name: "colgroup".to_owned(),
            namespace: Some(HTML_NAMESPACE.to_owned()),
            attributes: vec![],
        }
    );
    let col = builder.document.children(colgroup).next().unwrap();
    assert_eq!(
        builder.document.node(col).kind,
        NodeKind::Element {
            name: "col".to_owned(),
            namespace: Some(HTML_NAMESPACE.to_owned()),
            attributes: vec![],
        }
    );
    assert_eq!(builder.open_elements.current_node(), Some(colgroup));
}

#[test]
fn in_table_tr_synthesizes_tbody_then_cascades_into_in_row() {
    let mut builder = TreeBuilder::new();
    let (_, table) = bootstrap_in_table(&mut builder);

    builder.process_token(&start_tag("tr"), pos());

    assert_eq!(builder.insertion_mode, InsertionMode::InRow);
    let tbody = builder.document.children(table).next().unwrap();
    assert_eq!(
        builder.document.node(tbody).kind,
        NodeKind::Element {
            name: "tbody".to_owned(),
            namespace: Some(HTML_NAMESPACE.to_owned()),
            attributes: vec![],
        }
    );
    let tr = builder.open_elements.current_node().unwrap();
    assert_eq!(
        builder.document.children(tbody).collect(),
        vec![tr]
    );
}

#[test]
fn in_table_nested_table_closes_the_first_and_starts_a_sibling() {
    let mut builder = TreeBuilder::new();
    let (body, table1) = bootstrap_in_table(&mut builder);

    builder.process_token(&start_tag("table"), pos());

    assert_eq!(builder.insertion_mode, InsertionMode::InTable);
    let table2 = builder.open_elements.current_node().unwrap();
    assert_ne!(table1, table2);
    assert_eq!(
        builder.document.children(body).collect(),
        vec![table1, table2]
    );
    assert_eq!(builder.document.children(table1).count(), 0);
}

#[test]
fn in_table_whitespace_character_is_buffered_and_inserted_normally() {
    let mut builder = TreeBuilder::new();
    let (_, table) = bootstrap_in_table(&mut builder);

    builder.process_token(&TokenKind::Character(' '), pos());
    assert_eq!(builder.insertion_mode, InsertionMode::InTableText);

    builder.process_token(&start_tag("caption"), pos());

    let children: Vec<_> = builder.document.children(table).collect();
    assert_eq!(
        builder.document.node(children[0]).kind,
        NodeKind::Text {
            content: " ".to_owned()
        }
    );
    assert_eq!(builder.insertion_mode, InsertionMode::InCaption);
}

#[test]
fn in_table_non_whitespace_character_is_foster_parented_before_the_table() {
    let mut builder = TreeBuilder::new();
    let (body, table) = bootstrap_in_table(&mut builder);

    builder.process_token(&TokenKind::Character('x'), pos());
    builder.process_token(&start_tag("caption"), pos());

    let body_children: Vec<_> = builder.document.children(body).collect();
    assert_eq!(body_children.len(), 2);
    assert_eq!(
        builder.document.node(body_children[0]).kind,
        NodeKind::Text {
            content: "x".to_owned()
        }
    );
    assert_eq!(body_children[1], table);
    assert_eq!(builder.document.children(table).count(), 1);
}

#[test]
fn in_caption_end_tag_closes_and_returns_to_in_table() {
    let mut builder = TreeBuilder::new();
    let (_, table) = bootstrap_in_table(&mut builder);
    builder.process_token(&start_tag("caption"), pos());
    let caption = builder.open_elements.current_node().unwrap();

    builder.process_token(&end_tag("caption"), pos());

    assert_eq!(builder.insertion_mode, InsertionMode::InTable);
    assert!(!builder.open_elements.contains(caption));
    assert_eq!(builder.open_elements.current_node(), Some(table));
}

#[test]
fn in_column_group_non_whitespace_closes_and_reprocesses_in_table() {
    let mut builder = TreeBuilder::new();
    let (_, table) = bootstrap_in_table(&mut builder);
    builder.process_token(&start_tag("colgroup"), pos());
    let colgroup = builder.open_elements.current_node().unwrap();

    builder.process_token(&start_tag("tbody"), pos());

    assert_eq!(builder.insertion_mode, InsertionMode::InTableBody);
    assert!(!builder.open_elements.contains(colgroup));
    let tbody = builder.open_elements.current_node().unwrap();
    assert_eq!(
        builder.document.children(table).collect(),
        vec![colgroup, tbody]
    );
}

#[test]
fn in_table_body_end_tag_table_closes_tbody_and_the_table() {
    let mut builder = TreeBuilder::new();
    let (body, table) = bootstrap_in_table(&mut builder);
    builder.process_token(&start_tag("tbody"), pos());
    assert_eq!(builder.insertion_mode, InsertionMode::InTableBody);

    builder.process_token(&end_tag("table"), pos());

    assert!(!builder.open_elements.contains(table));
    assert_eq!(builder.open_elements.current_node(), Some(body));
}

#[test]
fn in_row_td_switches_to_in_cell_and_pushes_a_marker() {
    let mut builder = TreeBuilder::new();
    bootstrap_in_table(&mut builder);
    builder.process_token(&start_tag("tr"), pos());
    assert_eq!(builder.insertion_mode, InsertionMode::InRow);
    let tr = builder.open_elements.current_node().unwrap();

    builder.process_token(&start_tag("td"), pos());

    assert_eq!(builder.insertion_mode, InsertionMode::InCell);
    let td = builder.open_elements.current_node().unwrap();
    assert_eq!(builder.document.children(tr).collect(), vec![td]);
    assert!(matches!(
        builder.active_formatting_elements.entries.last(),
        Some(FormattingEntry::Marker)
    ));
}

#[test]
fn in_row_end_tag_tr_returns_to_in_table_body() {
    let mut builder = TreeBuilder::new();
    bootstrap_in_table(&mut builder);
    builder.process_token(&start_tag("tr"), pos());
    let tr = builder.open_elements.current_node().unwrap();

    builder.process_token(&end_tag("tr"), pos());

    assert_eq!(builder.insertion_mode, InsertionMode::InTableBody);
    assert!(!builder.open_elements.contains(tr));
}

#[test]
fn in_cell_end_tag_td_closes_and_returns_to_in_row() {
    let mut builder = TreeBuilder::new();
    bootstrap_in_table(&mut builder);
    builder.process_token(&start_tag("tr"), pos());
    let tr = builder.open_elements.current_node().unwrap();
    builder.process_token(&start_tag("td"), pos());
    let td = builder.open_elements.current_node().unwrap();

    builder.process_token(&end_tag("td"), pos());

    assert_eq!(builder.insertion_mode, InsertionMode::InRow);
    assert!(!builder.open_elements.contains(td));
    assert_eq!(builder.open_elements.current_node(), Some(tr));
}

#[test]
fn in_cell_next_cell_start_tag_closes_the_current_one_and_reprocesses() {
    let mut builder = TreeBuilder::new();
    bootstrap_in_table(&mut builder);
    builder.process_token(&start_tag("tr"), pos());
    let tr = builder.open_elements.current_node().unwrap();
    builder.process_token(&start_tag("td"), pos());
    let td1 = builder.open_elements.current_node().unwrap();

    builder.process_token(&start_tag("td"), pos());

    assert_eq!(builder.insertion_mode, InsertionMode::InCell);
    let td2 = builder.open_elements.current_node().unwrap();
    assert_ne!(td1, td2);
    assert!(!builder.open_elements.contains(td1));
    assert_eq!(
        builder.document.children(tr).collect(),
        vec![td1, td2]
    );
}

fn bootstrap_after_body(builder: &mut TreeBuilder) -> (NodeId, NodeId) {
    let (html, body) = bootstrap_in_body(builder);
    builder.process_token(&end_tag("body"), pos());
    (html, body)
}

#[test]
fn after_body_comment_is_appended_to_the_html_element() {
    let mut builder = TreeBuilder::new();
    let (html, body) = bootstrap_after_body(&mut builder);
    assert_eq!(builder.insertion_mode, InsertionMode::AfterBody);

    builder.process_token(&TokenKind::Comment("hi".to_owned()), pos());

    let html_children: Vec<_> = builder.document.children(html).collect();
    assert_eq!(html_children.len(), 3);
    assert_eq!(html_children[1], body);
    assert_eq!(
        builder.document.node(html_children[2]).kind,
        NodeKind::Comment {
            content: "hi".to_owned()
        }
    );
}

#[test]
fn after_body_end_tag_html_switches_to_after_after_body() {
    let mut builder = TreeBuilder::new();
    bootstrap_after_body(&mut builder);

    builder.process_token(&end_tag("html"), pos());

    assert_eq!(builder.insertion_mode, InsertionMode::AfterAfterBody);
}

#[test]
fn after_body_whitespace_character_is_delegated_to_in_body() {
    let mut builder = TreeBuilder::new();
    let (_, body) = bootstrap_after_body(&mut builder);

    builder.process_token(&TokenKind::Character(' '), pos());

    let children: Vec<_> = builder.document.children(body).collect();
    assert_eq!(children.len(), 1);
    assert_eq!(
        builder.document.node(children[0]).kind,
        NodeKind::Text {
            content: " ".to_owned()
        }
    );
    assert_eq!(builder.insertion_mode, InsertionMode::AfterBody);
}

#[test]
fn after_body_anything_else_switches_to_in_body_and_reprocesses() {
    let mut builder = TreeBuilder::new();
    let (_, body) = bootstrap_after_body(&mut builder);

    builder.process_token(&start_tag("p"), pos());

    assert_eq!(builder.insertion_mode, InsertionMode::InBody);
    let p = builder.open_elements.current_node().unwrap();
    assert_eq!(builder.document.children(body).collect(), vec![p]);
}

fn bootstrap_after_after_body(builder: &mut TreeBuilder) -> NodeId {
    bootstrap_after_body(builder);
    builder.process_token(&end_tag("html"), pos());
    builder.document.root()
}

#[test]
fn after_after_body_comment_is_appended_to_the_document() {
    let mut builder = TreeBuilder::new();
    let root = bootstrap_after_after_body(&mut builder);

    builder.process_token(&TokenKind::Comment("hi".to_owned()), pos());

    let children: Vec<_> = builder.document.children(root).collect();
    let last = *children.last().unwrap();
    assert_eq!(
        builder.document.node(last).kind,
        NodeKind::Comment {
            content: "hi".to_owned()
        }
    );
}

#[test]
fn after_after_body_whitespace_character_is_delegated_to_in_body() {
    let mut builder = TreeBuilder::new();
    bootstrap_after_after_body(&mut builder);

    builder.process_token(&TokenKind::Character(' '), pos());

    assert_eq!(builder.insertion_mode, InsertionMode::AfterAfterBody);
}

#[test]
fn after_after_body_anything_else_switches_to_in_body_and_reprocesses() {
    let mut builder = TreeBuilder::new();
    bootstrap_after_after_body(&mut builder);

    builder.process_token(&start_tag("p"), pos());

    assert_eq!(builder.insertion_mode, InsertionMode::InBody);
    let p = builder.open_elements.current_node().unwrap();
    assert_eq!(
        builder.document.node(p).kind,
        NodeKind::Element {
            name: "p".to_owned(),
            namespace: Some(HTML_NAMESPACE.to_owned()),
            attributes: vec![],
        }
    );
}

fn bootstrap_in_svg(builder: &mut TreeBuilder) -> (NodeId, NodeId) {
    let (_, body) = bootstrap_in_body(builder);
    builder.process_token(&start_tag("svg"), pos());
    let svg = builder.open_elements.current_node().unwrap();
    (body, svg)
}

#[test]
fn foreign_content_ordinary_svg_element_gets_svg_namespace() {
    let mut builder = TreeBuilder::new();
    let (_, svg) = bootstrap_in_svg(&mut builder);

    builder.process_token(&start_tag("circle"), pos());

    let circle = builder.open_elements.current_node().unwrap();
    assert_eq!(
        builder.document.node(circle).kind,
        NodeKind::Element {
            name: "circle".to_owned(),
            namespace: Some(SVG_NAMESPACE.to_owned()),
            attributes: vec![],
        }
    );
    assert_eq!(
        builder.document.children(svg).collect(),
        vec![circle]
    );
}

#[test]
fn foreign_content_svg_tag_name_is_case_fixed() {
    let mut builder = TreeBuilder::new();
    bootstrap_in_svg(&mut builder);

    builder.process_token(&start_tag("foreignobject"), pos());

    let node = builder.open_elements.current_node().unwrap();
    let NodeKind::Element { name, .. } = &builder.document.node(node).kind else {
        unreachable!()
    };
    assert_eq!(name, "foreignObject");
}

#[test]
fn foreign_content_svg_attribute_is_case_fixed() {
    let mut builder = TreeBuilder::new();
    bootstrap_in_svg(&mut builder);

    builder.process_token(
        &start_tag_with_attrs("rect", &[("viewbox", "0 0 1 1")]),
        pos(),
    );

    let node = builder.open_elements.current_node().unwrap();
    let NodeKind::Element { attributes, .. } = &builder.document.node(node).kind else {
        unreachable!()
    };
    assert_eq!(attributes[0].name, "viewBox");
}

#[test]
fn foreign_content_xlink_attribute_gets_namespaced() {
    let mut builder = TreeBuilder::new();
    bootstrap_in_svg(&mut builder);

    builder.process_token(&start_tag_with_attrs("use", &[("xlink:href", "#a")]), pos());

    let node = builder.open_elements.current_node().unwrap();
    let NodeKind::Element { attributes, .. } = &builder.document.node(node).kind else {
        unreachable!()
    };
    assert_eq!(attributes[0].name, "xlink:href");
    assert_eq!(
        attributes[0].namespace.as_deref(),
        Some(XLINK_NAMESPACE)
    );
}

#[test]
fn math_definitionurl_attribute_is_case_fixed() {
    let mut builder = TreeBuilder::new();
    bootstrap_in_body(&mut builder);

    builder.process_token(
        &start_tag_with_attrs("math", &[("definitionurl", "x")]),
        pos(),
    );

    let math = builder.open_elements.current_node().unwrap();
    let NodeKind::Element { attributes, .. } = &builder.document.node(math).kind else {
        unreachable!()
    };
    assert_eq!(attributes[0].name, "definitionURL");
}

#[test]
fn foreign_content_html_integration_point_allows_html_rules_inside() {
    let mut builder = TreeBuilder::new();
    bootstrap_in_svg(&mut builder);
    builder.process_token(&start_tag("foreignobject"), pos());
    let foreign_object = builder.open_elements.current_node().unwrap();

    builder.process_token(&start_tag("div"), pos());

    let div = builder.open_elements.current_node().unwrap();
    assert_eq!(
        builder.document.node(div).kind,
        NodeKind::Element {
            name: "div".to_owned(),
            namespace: Some(HTML_NAMESPACE.to_owned()),
            attributes: vec![],
        }
    );
    assert_eq!(
        builder
            .document
            .children(foreign_object)
            .collect(),
        vec![div]
    );
}

#[test]
fn foreign_content_mathml_text_integration_point_allows_html_start_tags() {
    let mut builder = TreeBuilder::new();
    bootstrap_in_body(&mut builder);
    builder.process_token(&start_tag("math"), pos());
    builder.process_token(&start_tag("mi"), pos());
    let mi = builder.open_elements.current_node().unwrap();

    builder.process_token(&start_tag("b"), pos());

    let b = builder.open_elements.current_node().unwrap();
    assert_eq!(
        builder.document.node(b).kind,
        NodeKind::Element {
            name: "b".to_owned(),
            namespace: Some(HTML_NAMESPACE.to_owned()),
            attributes: vec![],
        }
    );
    assert_eq!(builder.document.children(mi).collect(), vec![b]);
}

#[test]
fn foreign_content_mathml_text_integration_point_still_treats_mglyph_as_foreign() {
    let mut builder = TreeBuilder::new();
    bootstrap_in_body(&mut builder);
    builder.process_token(&start_tag("math"), pos());
    builder.process_token(&start_tag("mi"), pos());

    builder.process_token(&start_tag("mglyph"), pos());

    let mglyph = builder.open_elements.current_node().unwrap();
    assert_eq!(
        builder.document.node(mglyph).kind,
        NodeKind::Element {
            name: "mglyph".to_owned(),
            namespace: Some(MATHML_NAMESPACE.to_owned()),
            attributes: vec![],
        }
    );
}

#[test]
fn foreign_content_block_element_start_tag_pops_out_and_reprocesses_as_html() {
    let mut builder = TreeBuilder::new();
    let (body, svg) = bootstrap_in_svg(&mut builder);

    builder.process_token(&start_tag("b"), pos());

    assert!(!builder.open_elements.contains(svg));
    let b = builder.open_elements.current_node().unwrap();
    assert_eq!(
        builder.document.node(b).kind,
        NodeKind::Element {
            name: "b".to_owned(),
            namespace: Some(HTML_NAMESPACE.to_owned()),
            attributes: vec![],
        }
    );
    assert_eq!(
        builder.document.children(body).collect(),
        vec![svg, b]
    );
}

#[test]
fn foreign_content_end_tag_p_pops_out_of_foreign_content() {
    let mut builder = TreeBuilder::new();
    let (_, svg) = bootstrap_in_svg(&mut builder);

    builder.process_token(&end_tag("p"), pos());

    assert!(!builder.open_elements.contains(svg));
    assert_eq!(builder.insertion_mode, InsertionMode::InBody);
}

#[test]
fn foreign_content_nul_character_becomes_replacement_character() {
    let mut builder = TreeBuilder::new();
    let (_, svg) = bootstrap_in_svg(&mut builder);

    builder.process_token(&TokenKind::Character('\0'), pos());

    let children: Vec<_> = builder.document.children(svg).collect();
    assert_eq!(
        builder.document.node(children[0]).kind,
        NodeKind::Text {
            content: "\u{FFFD}".to_owned()
        }
    );
}

#[test]
fn foreign_content_any_other_end_tag_pops_through_a_matching_element() {
    let mut builder = TreeBuilder::new();
    let (_, svg) = bootstrap_in_svg(&mut builder);
    builder.process_token(&start_tag("circle"), pos());
    let circle = builder.open_elements.current_node().unwrap();

    builder.process_token(&end_tag("circle"), pos());

    assert!(!builder.open_elements.contains(circle));
    assert_eq!(builder.open_elements.current_node(), Some(svg));
}

#[test]
fn foreign_content_math_inside_svg_keeps_the_svg_namespace() {
    let mut builder = TreeBuilder::new();
    bootstrap_in_svg(&mut builder);

    builder.process_token(&start_tag("math"), pos());

    let math = builder.open_elements.current_node().unwrap();
    assert_eq!(
        builder.document.node(math).kind,
        NodeKind::Element {
            name: "math".to_owned(),
            namespace: Some(SVG_NAMESPACE.to_owned()),
            attributes: vec![],
        }
    );
}
