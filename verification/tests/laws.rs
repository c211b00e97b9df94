//! The laws of the library on concrete values, and one source for each kind of
//! error that tree construction reports beyond the plain ones.
use html5_parser::tokenizer::{Attribute, TagToken, TokenKind, Tokenizer};
use html5_parser::tree_builder::builder::TreeBuilder;
use html5_parser::tree_builder::formatting::{ActiveFormattingElements, FormattingEntry};
use html5_parser::tree_builder::names::HTML_NAMESPACE;
use html5_parser::tree_builder::stack::OpenElementsStack;
use html5_parser::{parse, Document, NodeId, NodeKind, ParseErrorKind, Position};

fn element(document: &mut Document, name: &str) -> NodeId {
    document.new_node(
        NodeKind::Element {
            name: name.to_owned(),
            namespace: Some(HTML_NAMESPACE.to_owned()),
            attributes: vec![],
        },
        None,
    )
}

fn tag(name: &str) -> TagToken {
    TagToken {
        name: name.to_owned(),
        self_closing: false,
        attributes: vec![],
    }
}

fn here() -> Position {
    Position {
        line: 1,
        column: 1,
        byte_offset: 0,
    }
}

fn tokens_of(source: &str) -> Vec<TokenKind> {
    let mut tokenizer = Tokenizer::new(source);
    let mut kinds = Vec::new();
    while let Some(token) = tokenizer.next() {
        kinds.push(token.kind);
    }
    kinds
}

fn errors_of(source: &str) -> Vec<(ParseErrorKind, usize)> {
    parse(source)
        .errors
        .into_iter()
        .map(|error| (error.kind, error.position.byte_offset))
        .collect()
}

fn text_of_body(source: &str) -> String {
    let document = parse(source).document;
    let html = document.children(document.root()).collect()[0];
    let body = document.children(html).collect()[1];
    let children = document.children(body).collect();
    assert_eq!(children.len(), 1);
    match &document.node(children[0]).kind {
        NodeKind::Text { content } => content.clone(),
        other => panic!("expected text, got {other:?}"),
    }
}

#[test]
fn the_end_of_the_file_comes_once_and_last() {
    for source in ["", "a", "<", "<a", "<!--", "<!DOCTYPE", "&", "</a b='"] {
        let kinds = tokens_of(source);
        assert_eq!(kinds.last(), Some(&TokenKind::Eof), "source: {source:?}");
        let ends = kinds.iter().filter(|kind| **kind == TokenKind::Eof);
        assert_eq!(ends.count(), 1, "source: {source:?}");
    }
}

#[test]
fn a_finished_tokenizer_gives_nothing_more() {
    let mut tokenizer = Tokenizer::new("a");
    while tokenizer.next().is_some() {}
    assert_eq!(tokenizer.next(), None);
    assert_eq!(tokenizer.next(), None);
}

#[test]
fn attribute_names_of_a_tag_are_distinct() {
    let kinds = tokens_of("<a b=1 c=2 B=3 c d>");
    let names = |name: &str, value: &str| Attribute {
        name: name.to_owned(),
        value: value.to_owned(),
    };
    assert_eq!(
        kinds[0],
        TokenKind::StartTag(TagToken {
            name: "a".to_owned(),
            self_closing: false,
            attributes: vec![names("b", "1"), names("c", "2"), names("d", "")],
        })
    );
}

#[test]
fn carriage_returns_become_line_feeds_and_count_as_one_line() {
    let mut tokenizer = Tokenizer::new("a\r\nb\rc");
    let mut seen = Vec::new();
    while let Some(token) = tokenizer.next() {
        if let TokenKind::Character(c) = token.kind {
            seen.push((c, token.position.line, token.position.column));
        }
    }
    assert_eq!(
        seen,
        vec![('a', 1, 1), ('\n', 1, 2), ('b', 2, 1), ('\n', 2, 2), ('c', 3, 1)]
    );
}

#[test]
fn positions_count_characters_in_columns_and_bytes_in_offsets() {
    let mut tokenizer = Tokenizer::new("\u{E9}\u{1F600}x");
    let mut seen = Vec::new();
    while let Some(token) = tokenizer.next() {
        seen.push((token.position.column, token.position.byte_offset));
    }
    assert_eq!(seen, vec![(1, 0), (2, 2), (3, 6), (4, 7)]);
}

#[test]
fn numeric_references_name_characters_other_than_nul() {
    assert_eq!(text_of_body("&#65;&#x42;"), "AB");
    assert_eq!(text_of_body("&#0;"), "\u{FFFD}");
    assert_eq!(text_of_body("&#xD800;"), "\u{FFFD}");
    assert_eq!(text_of_body("&#x110000;"), "\u{FFFD}");
    assert_eq!(text_of_body("&#x99999999999;"), "\u{FFFD}");
    assert_eq!(text_of_body("&#x80;&#x9F;"), "\u{20AC}\u{178}");
    assert_eq!(text_of_body("&#x81;"), "\u{81}");
    assert_eq!(text_of_body("&#x10FFFF;"), "\u{10FFFF}");
}

#[test]
fn the_longest_named_reference_wins() {
    assert_eq!(text_of_body("&notin;"), "\u{2209}");
    assert_eq!(text_of_body("&notin"), "\u{AC}in");
    assert_eq!(text_of_body("&not;"), "\u{AC}");
    assert_eq!(text_of_body("&nothing;"), "\u{AC}hing;");
}

#[test]
fn errors_are_in_document_order_and_none_is_lost() {
    assert_eq!(
        errors_of("<!doctype html><body></a></b>&bogus;<div/>"),
        vec![
            (ParseErrorKind::StrayEndTag, 21),
            (ParseErrorKind::StrayEndTag, 25),
            (ParseErrorKind::UnknownNamedCharacterReference, 35),
            (
                ParseErrorKind::NonVoidHtmlElementStartTagWithTrailingSolidus,
                36
            ),
            (ParseErrorKind::EofWithUnclosedElements, 42),
        ]
    );
}

#[test]
fn errors_at_the_same_offset_keep_the_order_of_the_stages() {
    let errors = errors_of("<!doctype html><a b b></br x>");
    let offsets: Vec<usize> = errors.iter().map(|error| error.1).collect();
    let mut sorted = offsets.clone();
    sorted.sort();
    assert_eq!(offsets, sorted);
    assert!(errors.contains(&(ParseErrorKind::DuplicateAttribute, 21)));
    assert!(errors.contains(&(ParseErrorKind::EndTagBr, 22)));
}

#[test]
fn a_run_of_characters_is_one_text_node() {
    assert_eq!(text_of_body("a run of characters"), "a run of characters");
    let mut builder = TreeBuilder::new();
    builder.process_token(&TokenKind::StartTag(tag("p")), here());
    let p = builder.open_elements.current_node().unwrap();
    builder.insert_character('a', None);
    builder.insert_character('b', None);
    let children = builder.document.children(p).collect();
    assert_eq!(children.len(), 1);
    assert_eq!(
        builder.document.node(children[0]).kind,
        NodeKind::Text {
            content: "ab".to_owned()
        }
    );
}

#[test]
fn inserting_and_popping_leaves_the_stack_as_it_was() {
    let mut builder = TreeBuilder::new();
    builder.process_token(&TokenKind::StartTag(tag("div")), here());
    let before = builder.open_elements.entries.clone();
    builder.insert_html_element(&tag("span"), None);
    builder.pop();
    assert_eq!(builder.open_elements.entries, before);
}

#[test]
fn everything_is_closed_at_the_end() {
    let mut builder = TreeBuilder::new();
    builder.process_token(&TokenKind::StartTag(tag("div")), here());
    builder.process_token(&TokenKind::StartTag(tag("b")), here());
    builder.stop_parsing();
    assert_eq!(builder.open_elements.current_node(), None);
}

#[test]
fn removing_undoes_appending() {
    let mut document = Document::new();
    let root = document.root();
    let a = element(&mut document, "a");
    let b = element(&mut document, "b");
    document.append_child(root, a);
    document.append_child(root, b);
    document.remove(b);
    assert_eq!(document.children(root).collect(), vec![a]);
    assert_eq!(document.parent(b), None);
}

#[test]
fn clearing_takes_back_a_marker_and_what_follows_it() {
    let mut document = Document::new();
    let a = element(&mut document, "a");
    let b = element(&mut document, "b");
    let i = element(&mut document, "i");
    let mut list = ActiveFormattingElements::new();
    list.push(&document, a);
    list.push_marker();
    list.push(&document, b);
    list.push(&document, i);
    list.clear_up_to_last_marker();
    assert_eq!(list.entries, vec![FormattingEntry::Element(a)]);
}

#[test]
fn no_more_than_three_alike_elements_are_active() {
    let mut document = Document::new();
    let mut list = ActiveFormattingElements::new();
    let mut made = Vec::new();
    for _ in 0..5 {
        let b = element(&mut document, "b");
        list.push(&document, b);
        made.push(FormattingEntry::Element(b));
    }
    assert_eq!(list.entries, made[2..].to_vec());
    list.push_marker();
    let b = element(&mut document, "b");
    list.push(&document, b);
    assert_eq!(list.entries.len(), 5);
}

#[test]
fn the_narrower_scopes_lie_within_the_default_one() {
    let mut document = Document::new();
    let html = element(&mut document, "html");
    let p = element(&mut document, "p");
    let button = element(&mut document, "button");
    let ul = element(&mut document, "ul");
    let mut stack = OpenElementsStack::new();
    stack.push(html);
    stack.push(p);
    assert!(stack.has_element_in_button_scope(&document, "p"));
    assert!(stack.has_element_in_list_item_scope(&document, "p"));
    assert!(stack.has_element_in_scope(&document, "p"));
    stack.push(button);
    assert!(!stack.has_element_in_button_scope(&document, "p"));
    assert!(stack.has_element_in_list_item_scope(&document, "p"));
    assert!(stack.has_element_in_scope(&document, "p"));
    stack.push(ul);
    assert!(!stack.has_element_in_list_item_scope(&document, "p"));
    assert!(stack.has_element_in_scope(&document, "p"));
    assert!(stack.has_element_in_table_scope(&document, "p"));
}

#[test]
fn implied_end_tags_are_gone_after_one_pass() {
    let mut document = Document::new();
    let mut stack = OpenElementsStack::new();
    for name in ["html", "div", "p", "li", "option"] {
        let node = element(&mut document, name);
        stack.push(node);
    }
    stack.generate_implied_end_tags(&document, Some("p"));
    assert_eq!(stack.entries.len(), 3);
    stack.generate_implied_end_tags(&document, Some("p"));
    assert_eq!(stack.entries.len(), 3);
    stack.generate_implied_end_tags(&document, None);
    assert_eq!(stack.entries.len(), 2);
}

#[test]
fn merging_attributes_keeps_those_that_are_there() {
    let document = parse("<body a=1><body a=2 b=3>").document;
    let html = document.children(document.root()).collect()[0];
    let body = document.children(html).collect()[1];
    let NodeKind::Element { attributes, .. } = &document.node(body).kind else {
        unreachable!()
    };
    let pairs: Vec<(&str, &str)> = attributes
        .iter()
        .map(|attribute| (attribute.name.as_str(), attribute.value.as_str()))
        .collect();
    assert_eq!(pairs, vec![("a", "1"), ("b", "3")]);
}

fn name_of(document: &Document, id: NodeId) -> Option<&str> {
    match &document.node(id).kind {
        NodeKind::Element {
            name,
            namespace: Some(namespace),
            ..
        } if namespace == HTML_NAMESPACE => Some(name),
        _ => None,
    }
}

fn element_children(document: &Document, id: NodeId) -> Vec<NodeId> {
    document
        .children(id)
        .collect()
        .into_iter()
        .filter(|child| matches!(document.node(*child).kind, NodeKind::Element { .. }))
        .collect()
}

#[test]
fn a_document_is_complete_whatever_the_source() {
    for (source, second) in [
        ("", "body"),
        ("\0", "body"),
        ("<!--a--><!doctype html><!--b-->", "body"),
        ("</table>", "body"),
        ("<template>", "body"),
        ("<template><table><tr><td><template>", "body"),
        ("<head><template><tr></template></head><template>", "body"),
        ("<head></head><title>a</title><template><col>", "body"),
        ("<head><noscript><style>", "body"),
        ("<style>a", "body"),
        ("<svg></p><table><svg><td>", "body"),
        ("<b><table><p></b></table><b><div></b>", "body"),
        ("<table><tr><td><a><table><a></td></tr></table>", "body"),
        ("<a><p><a></p></body></html> <!--a-->", "body"),
        ("<frameset>", "frameset"),
        ("<b><frameset><frame></frameset></html> <noframes>", "frameset"),
        ("<head></head><frameset><frameset></frameset>", "frameset"),
        ("<body><frameset>", "body"),
    ] {
        let document = parse(source).document;
        let top = element_children(&document, document.root());
        assert_eq!(top.len(), 1, "source: {source:?}");
        assert_eq!(name_of(&document, top[0]), Some("html"), "source: {source:?}");
        let below = element_children(&document, top[0]);
        assert_eq!(name_of(&document, below[0]), Some("head"), "source: {source:?}");
        assert_eq!(name_of(&document, below[1]), Some(second), "source: {source:?}");
    }
}

/// The line, column and byte offset of every character, and of the end.
fn places(source: &str) -> Vec<(usize, usize, usize)> {
    let mut places = vec![(1, 1, 0)];
    let (mut line, mut column) = (1, 1);
    for (offset, c) in source.char_indices() {
        if c == '\n' {
            line += 1;
            column = 1;
        } else {
            column += 1;
        }
        places.push((line, column, offset + c.len_utf8()));
    }
    places
}

fn placed(position: &Position) -> (usize, usize, usize) {
    (
        position.line as usize,
        position.column as usize,
        position.byte_offset as usize,
    )
}

#[test]
fn nodes_and_errors_are_at_places_of_the_source() {
    for source in [
        "<!doctype html>\n<p>\u{e9}a<b>b<!--c--></p>d</b>",
        "a\n<table>\u{1f600}<tr><td>x</table><?pi y>",
        "<svg><![CDATA[\u{e9}]]><g/></svg></p><br/>&amp",
        "<template>a<p></template><frameset>",
    ] {
        let result = parse(source);
        let document = &result.document;
        let places = places(source);
        for error in &result.errors {
            assert!(places.contains(&placed(&error.position)), "source: {source:?}");
        }
        assert!(document.node(document.root()).position.is_none());
        let mut left = document.children(document.root()).collect();
        let mut positions = 0;
        while let Some(id) = left.pop() {
            let node = document.node(id);
            if let Some(position) = &node.position {
                positions += 1;
                assert!(places.contains(&placed(position)), "source: {source:?}");
                if !matches!(node.kind, NodeKind::Text { .. }) {
                    let rest = &source[position.byte_offset as usize..];
                    assert!(rest.starts_with('<'), "source: {source:?}");
                }
            }
            left.extend(document.children(id).collect());
        }
        assert!(positions > 0);
    }
}

#[test]
fn tokens_that_pass_through_many_modes_are_used_up() {
    for source in [
        "<template></html>",
        "<table><template><caption></html>",
        "<template><table><svg><desc><td></table>",
        "<table><caption><table><col><td></html>",
        "<template><tr></table></template>",
        "<select><table><td></select></table>",
    ] {
        let document = parse(source).document;
        assert_eq!(document.children(document.root()).count(), 1, "source: {source:?}");
    }
}

#[test]
fn stray_start_tags() {
    for (source, offset) in [
        ("<!doctype html><body><html>", 21),
        ("<!doctype html><body><body>", 21),
        ("<!doctype html><body>a<frameset>", 22),
        ("<!doctype html><head></head><head>", 28),
        ("<!doctype html><body><td>", 21),
        ("<!doctype html><body><frame>", 21),
        ("<!doctype html><select><select>", 23),
    ] {
        assert!(
            errors_of(source).contains(&(ParseErrorKind::StrayStartTag, offset)),
            "source: {source:?}"
        );
    }
}

#[test]
fn stray_end_tags() {
    for source in [
        "<!doctype html></div>",
        "<!doctype html><html></div>",
        "<!doctype html><head></div>",
        "<!doctype html><head><noscript></div>",
        "<!doctype html><head></head></div>",
        "<!doctype html><body></li>",
        "<!doctype html><body></dd>",
        "<!doctype html><body></h1>",
        "<!doctype html><body></form>",
        "<!doctype html><body></object>",
        "<!doctype html><body></template>",
        "<!doctype html><template></div>",
        "<!doctype html><b><i>x</b></i>",
    ] {
        let kinds: Vec<ParseErrorKind> =
            errors_of(source).into_iter().map(|error| error.0).collect();
        assert!(kinds.contains(&ParseErrorKind::StrayEndTag), "source: {source:?}");
    }
}

#[test]
fn formatting_element_errors() {
    assert!(errors_of("<!doctype html><a>x<a>y")
        .contains(&(ParseErrorKind::NestedFormattingElement, 19)));
    assert!(errors_of("<!doctype html><nobr>x<nobr>y")
        .contains(&(ParseErrorKind::NestedFormattingElement, 22)));
    assert!(errors_of("<!doctype html><b><i>x</b></i>")
        .contains(&(ParseErrorKind::MisnestedFormattingElement, 22)));
    assert!(errors_of("<!doctype html><b><table></b>")
        .contains(&(ParseErrorKind::FormattingElementNotInScope, 25)));
}

#[test]
fn table_errors() {
    for source in [
        "<!doctype html><table><tr></td>",
        "<!doctype html><table><caption></col>",
        "<!doctype html><table><colgroup></col>",
        "<!doctype html><table><tbody></td>",
        "<!doctype html><table><td></col>",
    ] {
        let kinds: Vec<ParseErrorKind> =
            errors_of(source).into_iter().map(|error| error.0).collect();
        assert!(kinds.contains(&ParseErrorKind::StrayEndTagInTable), "source: {source:?}");
    }
    assert!(errors_of("<!doctype html><table><form>")
        .contains(&(ParseErrorKind::MisplacedTokenInTable, 22)));
    assert_eq!(
        errors_of("<!doctype html><table> ab</table>"),
        vec![(ParseErrorKind::NonSpaceCharactersInTable, 23)]
    );
}

#[test]
fn a_second_doctype_is_stray_in_foreign_content() {
    assert!(errors_of("<!doctype html><svg><!doctype html>")
        .contains(&(ParseErrorKind::StrayDoctype, 20)));
}

#[test]
fn a_clean_document_has_no_errors() {
    assert_eq!(
        errors_of(
            "<!DOCTYPE html><html><head><title>t</title></head>\
             <body><p>a<p>b<table><tr><td>c</td></tr></table></body></html>"
        ),
        vec![]
    );
}

#[test]
fn names_are_in_lower_case() {
    let kinds = tokens_of("<DiV ID=A cLaSs=B></DIV></SCRIPT>");
    let mut names = Vec::new();
    for kind in &kinds {
        if let TokenKind::StartTag(tag) | TokenKind::EndTag(tag) = kind {
            names.push(tag.name.clone());
            for attribute in &tag.attributes {
                names.push(attribute.name.clone());
            }
        }
    }
    assert_eq!(names, vec!["div", "id", "class", "div", "script"]);
}

fn count_documents(document: &Document, node: NodeId) -> usize {
    let mut count = usize::from(document.node(node).kind == NodeKind::Document);
    for child in document.children(node).collect() {
        count += count_documents(document, child);
    }
    count
}

#[test]
fn there_is_one_document_node() {
    for source in [
        "",
        "<select><button><selectedcontent></button><option>a<b>c",
        "<a><p>X<a>Y</a>Z</p></a><template><b>",
    ] {
        let document = parse(source).document;
        assert_eq!(document.parent(document.root()), None);
        assert_eq!(count_documents(&document, document.root()), 1, "source: {source:?}");
    }
}

fn character(c: char) -> TokenKind {
    TokenKind::Character(c)
}

#[test]
fn an_unknown_reference_leaves_the_character_after_it_alone() {
    assert_eq!(
        tokens_of("&no<b>"),
        vec![
            character('&'),
            character('n'),
            character('o'),
            TokenKind::StartTag(tag("b")),
            TokenKind::Eof,
        ]
    );
    assert_eq!(
        tokens_of("<a href=\"?x&b\">"),
        vec![
            TokenKind::StartTag(TagToken {
                name: "a".to_owned(),
                self_closing: false,
                attributes: vec![Attribute {
                    name: "href".to_owned(),
                    value: "?x&b".to_owned(),
                }],
            }),
            TokenKind::Eof,
        ]
    );
    assert_eq!(
        tokens_of("&no\u{E9}&b&amp;"),
        vec![
            character('&'),
            character('n'),
            character('o'),
            character('\u{E9}'),
            character('&'),
            character('b'),
            character('&'),
            TokenKind::Eof,
        ]
    );
    assert_eq!(
        tokens_of("&no"),
        vec![character('&'), character('n'), character('o'), TokenKind::Eof]
    );
}

#[test]
fn an_unknown_reference_with_a_semicolon_is_reported() {
    let mut tokenizer = Tokenizer::new("&no;");
    let mut seen = Vec::new();
    while let Some(token) = tokenizer.next() {
        seen.push((token.kind, token.position.byte_offset));
    }
    assert_eq!(
        seen,
        vec![
            (character('&'), 0),
            (character('n'), 1),
            (character('o'), 2),
            (character(';'), 3),
            (TokenKind::Eof, 4),
        ]
    );
    let errors = tokenizer.take_errors();
    assert_eq!(errors.len(), 1);
    assert_eq!(errors[0].kind, ParseErrorKind::UnknownNamedCharacterReference);
    assert_eq!(errors[0].position.byte_offset, 3);
    let mut without = Tokenizer::new("&no ");
    while without.next().is_some() {}
    assert!(without.take_errors().is_empty());
}

#[test]
fn line_breaks_may_be_written_in_any_way() {
    let written = "a\r\n<b\rc='&no\r\n' c>\r\r\n&#;\0<!--\r--\r\n\u{E9}</b\r\n>&amp\r<";
    let plain = written.replace("\r\n", "\n").replace('\r', "\n");
    assert!(!plain.contains('\r'));
    let mut first = Tokenizer::new(written);
    let mut second = Tokenizer::new(&plain);
    loop {
        match (first.next(), second.next()) {
            (Some(a), Some(b)) => {
                assert_eq!(a.kind, b.kind);
                assert_eq!(a.position.line, b.position.line);
                assert_eq!(a.position.column, b.position.column);
            }
            (None, None) => break,
            other => panic!("one is longer: {other:?}"),
        }
    }
    let first_errors = first.take_errors();
    let second_errors = second.take_errors();
    assert_eq!(first_errors.len(), second_errors.len());
    assert!(first_errors.len() > 3);
    for (a, b) in first_errors.iter().zip(second_errors.iter()) {
        assert_eq!(a.kind, b.kind);
        assert_eq!(a.position.line, b.position.line);
        assert_eq!(a.position.column, b.position.column);
    }
}

#[test]
fn tokens_start_in_the_order_in_which_they_come() {
    for source in [
        "",
        "\u{1F600}\r\n",
        "a<b c='&amp;d&e' f>&#65;&no;</b",
        "<!-- \u{E9} --><!doctype html><?x y?>&NotEqualTilde;x",
        "</ x><//><a/ b=c></a",
        "&#x;&#xZ&#99999999;",
        "<",
        "</",
        "<![CDATA[]]>",
    ] {
        let mut tokenizer = Tokenizer::new(source);
        let mut last: usize = 0;
        while let Some(token) = tokenizer.next() {
            assert!(last <= token.position.byte_offset, "source: {source:?}");
            last = token.position.byte_offset;
            if token.kind == TokenKind::Eof {
                assert_eq!(last, source.len(), "source: {source:?}");
            }
        }
        assert_eq!(last, source.len(), "source: {source:?}");
    }
}

#[test]
fn brackets_of_a_section_come_out_in_order() {
    let mut tokenizer = Tokenizer::new("<![CDATA[a]b]]c]]]]>d");
    tokenizer.set_in_foreign_content(true);
    let mut seen = Vec::new();
    while let Some(token) = tokenizer.next() {
        if let TokenKind::Character(c) = token.kind {
            seen.push((c, token.position.byte_offset));
        }
    }
    assert_eq!(
        seen,
        vec![
            ('a', 9),
            (']', 10),
            ('b', 11),
            (']', 12),
            (']', 13),
            ('c', 14),
            (']', 15),
            (']', 16),
            ('d', 20),
        ]
    );
}

#[test]
fn opening_formatting_elements_again_twice_is_opening_them_once() {
    let mut builder = TreeBuilder::new();
    builder.process_token(&TokenKind::StartTag(tag("p")), here());
    builder.process_token(&TokenKind::StartTag(tag("b")), here());
    builder.process_token(&TokenKind::StartTag(tag("i")), here());
    builder.process_token(&TokenKind::EndTag(tag("p")), here());
    let before = builder.open_elements.entries.clone();
    builder.reconstruct_the_active_formatting_elements();
    let stack = builder.open_elements.entries.clone();
    let list = builder.active_formatting_elements.entries.clone();
    assert_eq!(stack.len(), before.len() + 2);
    assert_eq!(stack[..before.len()], before[..]);
    assert_eq!(
        list,
        vec![
            FormattingEntry::Element(stack[before.len()]),
            FormattingEntry::Element(stack[before.len() + 1]),
        ]
    );
    for (offset, name) in ["b", "i"].into_iter().enumerate() {
        let node = builder.document.node(stack[before.len() + offset]);
        assert_eq!(
            node.kind,
            NodeKind::Element {
                name: name.to_owned(),
                namespace: Some(HTML_NAMESPACE.to_owned()),
                attributes: vec![],
            }
        );
        assert_eq!(node.position, None);
        assert_eq!(node.parent, Some(stack[before.len() + offset - 1]));
    }
    let nodes = builder.document.size();
    builder.reconstruct_the_active_formatting_elements();
    assert_eq!(builder.open_elements.entries, stack);
    assert_eq!(builder.active_formatting_elements.entries, list);
    assert_eq!(builder.document.size(), nodes);
}

#[test]
fn the_links_of_a_node_agree_with_the_lists_of_children() {
    let mut document = Document::new();
    let root = document.root();
    let a = element(&mut document, "a");
    let b = element(&mut document, "b");
    let c = element(&mut document, "c");
    for child in [a, b, c] {
        document.append_child(root, child);
    }
    let node = document.node(root);
    assert_eq!(node.parent, None);
    assert_eq!(node.first_child, Some(a));
    assert_eq!(node.last_child, Some(c));
    let node = document.node(b);
    assert_eq!(node.parent, Some(root));
    assert_eq!(node.prev_sibling, Some(a));
    assert_eq!(node.next_sibling, Some(c));
    assert_eq!(node.first_child, None);
    document.remove(b);
    let node = document.node(b);
    assert_eq!((node.parent, node.prev_sibling, node.next_sibling), (None, None, None));
    assert_eq!(document.node(a).next_sibling, Some(c));
    assert_eq!(document.node(c).prev_sibling, Some(a));
}
