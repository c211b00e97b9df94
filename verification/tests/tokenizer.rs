//! From source text to tokens.
use html5_parser::tokenizer::{
    Attribute, DoctypeToken, ExternalState, ProcessingInstructionToken, TagToken, Token, TokenKind,
    Tokenizer,
};
use html5_parser::{ParseErrorKind, Position};

fn collect(mut tokenizer: Tokenizer) -> Vec<Token> {
    let mut tokens = Vec::new();
    while let Some(token) = tokenizer.next() {
        tokens.push(token);
    }
    tokens
}

fn tokenize(input: &str) -> Vec<Token> {
    collect(Tokenizer::new(input))
}

fn kinds(tokens: &[Token]) -> Vec<&TokenKind> {
    tokens.iter().map(|token| &token.kind).collect()
}

fn pos(line: u32, column: u32, byte_offset: usize) -> Position {
    Position {
        line,
        column,
        byte_offset,
    }
}

fn errors_for(input: &str) -> Vec<ParseErrorKind> {
    let mut tokenizer = Tokenizer::new(input);
    while tokenizer.next().is_some() {}
    tokenizer
        .take_errors()
        .into_iter()
        .map(|error| error.kind)
        .collect()
}

#[test]
fn plain_text_emits_one_character_token_per_char_then_eof() {
    let tokens = tokenize("hi");
    assert_eq!(
        tokens,
        vec![
            Token {
                kind: TokenKind::Character('h'),
                position: pos(1, 1, 0),
            },
            Token {
                kind: TokenKind::Character('i'),
                position: pos(1, 2, 1),
            },
            Token {
                kind: TokenKind::Eof,
                position: pos(1, 3, 2),
            },
        ]
    );
}

#[test]
fn simple_start_tag_with_no_attributes() {
    let tokens = tokenize("<p>");
    assert_eq!(
        tokens,
        vec![
            Token {
                kind: TokenKind::StartTag(TagToken {
                    name: "p".to_owned(),
                    self_closing: false,
                    attributes: vec![],
                }),
                position: pos(1, 1, 0),
            },
            Token {
                kind: TokenKind::Eof,
                position: pos(1, 4, 3),
            },
        ]
    );
}

#[test]
fn end_tag() {
    let tokens = tokenize("</p>");
    match &tokens[0].kind {
        TokenKind::EndTag(tag) => assert_eq!(tag.name, "p"),
        other => panic!("expected end tag, got {other:?}"),
    }
}

#[test]
fn self_closing_tag() {
    let tokens = tokenize("<br/>");
    match &tokens[0].kind {
        TokenKind::StartTag(tag) => {
            assert_eq!(tag.name, "br");
            assert!(tag.self_closing);
        }
        other => panic!("expected start tag, got {other:?}"),
    }
}

#[test]
fn attribute_value_quoting_forms() {
    for html in ["<a href=\"x\">", "<a href='x'>", "<a href=x>"] {
        let tokens = tokenize(html);
        match &tokens[0].kind {
            TokenKind::StartTag(tag) => assert_eq!(
                tag.attributes,
                vec![Attribute {
                    name: "href".to_owned(),
                    value: "x".to_owned(),
                }],
                "input: {html:?}",
            ),
            other => panic!("expected start tag for {html:?}, got {other:?}"),
        }
    }
}

#[test]
fn multiple_attributes_separated_by_whitespace() {
    let tokens = tokenize(r#"<a href="x" target="y">"#);
    match &tokens[0].kind {
        TokenKind::StartTag(tag) => assert_eq!(
            tag.attributes,
            vec![
                Attribute {
                    name: "href".to_owned(),
                    value: "x".to_owned(),
                },
                Attribute {
                    name: "target".to_owned(),
                    value: "y".to_owned(),
                },
            ]
        ),
        other => panic!("expected start tag, got {other:?}"),
    }
}

#[test]
fn duplicate_attribute_name_keeps_first_occurrence_only() {
    let tokens = tokenize(r#"<a href="x" href="y">"#);
    match &tokens[0].kind {
        TokenKind::StartTag(tag) => assert_eq!(
            tag.attributes,
            vec![Attribute {
                name: "href".to_owned(),
                value: "x".to_owned(),
            }]
        ),
        other => panic!("expected start tag, got {other:?}"),
    }
}

#[test]
fn tag_and_attribute_names_are_ascii_lowercased() {
    let tokens = tokenize(r#"<DIV CLASS="a">"#);
    match &tokens[0].kind {
        TokenKind::StartTag(tag) => {
            assert_eq!(tag.name, "div");
            assert_eq!(tag.attributes[0].name, "class");
        }
        other => panic!("expected start tag, got {other:?}"),
    }
}

#[test]
fn boolean_attribute_with_no_value() {
    let tokens = tokenize("<input disabled>");
    match &tokens[0].kind {
        TokenKind::StartTag(tag) => assert_eq!(
            tag.attributes,
            vec![Attribute {
                name: "disabled".to_owned(),
                value: String::new(),
            }]
        ),
        other => panic!("expected start tag, got {other:?}"),
    }
}

#[test]
fn null_character_in_tag_name_is_replaced_with_u_fffd() {
    let tokens = tokenize("<a\u{0}b>");
    match &tokens[0].kind {
        TokenKind::StartTag(tag) => assert_eq!(tag.name, "a\u{FFFD}b"),
        other => panic!("expected start tag, got {other:?}"),
    }
}

#[test]
fn null_character_in_data_state_is_emitted_literally_not_replaced() {
    let tokens = tokenize("\u{0}");
    assert_eq!(tokens[0].kind, TokenKind::Character('\u{0}'));
}

#[test]
fn eof_inside_a_tag_emits_only_eof_no_tag_token() {
    let tokens = tokenize("<div");
    assert_eq!(
        tokens,
        vec![Token {
            kind: TokenKind::Eof,
            position: pos(1, 5, 4),
        }]
    );
}

#[test]
fn eof_right_after_solidus_emits_synthesized_lt_and_solidus_then_eof() {
    let tokens = tokenize("</");
    assert_eq!(
        tokens,
        vec![
            Token {
                kind: TokenKind::Character('<'),
                position: pos(1, 1, 0),
            },
            Token {
                kind: TokenKind::Character('/'),
                position: pos(1, 2, 1),
            },
            Token {
                kind: TokenKind::Eof,
                position: pos(1, 3, 2),
            },
        ]
    );
}

#[test]
fn position_tracking_across_a_newline() {
    let tokens = tokenize("a\nb");
    assert_eq!(tokens[0].position, pos(1, 1, 0));
    assert_eq!(tokens[1].position, pos(1, 2, 1));
    assert_eq!(tokens[2].position, pos(2, 1, 2));
}

#[test]
fn crlf_and_lone_cr_normalize_to_a_single_lf_character_token() {
    let crlf = tokenize("a\r\nb");
    assert_eq!(
        kinds(&crlf),
        vec![
            &TokenKind::Character('a'),
            &TokenKind::Character('\n'),
            &TokenKind::Character('b'),
            &TokenKind::Eof,
        ]
    );
    let lone_cr = tokenize("a\rb");
    assert_eq!(
        kinds(&lone_cr),
        vec![
            &TokenKind::Character('a'),
            &TokenKind::Character('\n'),
            &TokenKind::Character('b'),
            &TokenKind::Eof,
        ]
    );
}

#[test]
fn named_character_reference_with_semicolon() {
    assert_eq!(
        kinds(&tokenize("&amp;")),
        vec![&TokenKind::Character('&'), &TokenKind::Eof]
    );
}

#[test]
fn named_character_reference_multi_codepoint() {
    assert_eq!(
        kinds(&tokenize("&NotEqualTilde;")),
        vec![
            &TokenKind::Character('\u{2242}'),
            &TokenKind::Character('\u{338}'),
            &TokenKind::Eof,
        ]
    );
}

#[test]
fn legacy_named_character_reference_without_semicolon_still_resolves_outside_attributes() {
    assert_eq!(
        kinds(&tokenize("&amp b")),
        vec![
            &TokenKind::Character('&'),
            &TokenKind::Character(' '),
            &TokenKind::Character('b'),
            &TokenKind::Eof,
        ]
    );
}

#[test]
fn unknown_named_character_reference_falls_back_to_ambiguous_ampersand() {
    assert_eq!(
        kinds(&tokenize("&1;")),
        vec![
            &TokenKind::Character('&'),
            &TokenKind::Character('1'),
            &TokenKind::Character(';'),
            &TokenKind::Eof,
        ]
    );
}

#[test]
fn named_character_reference_historical_fallback_in_unquoted_attribute_value() {
    let tokens = tokenize("<a href=&notit=1>");
    match &tokens[0].kind {
        TokenKind::StartTag(tag) => assert_eq!(
            tag.attributes,
            vec![Attribute {
                name: "href".to_owned(),
                value: "&notit=1".to_owned(),
            }]
        ),
        other => panic!("expected start tag, got {other:?}"),
    }
}

#[test]
fn named_character_reference_historical_fallback_applies_in_double_quoted_attributes_too() {
    let tokens = tokenize(r#"<a href="&notit">"#);
    match &tokens[0].kind {
        TokenKind::StartTag(tag) => assert_eq!(
            tag.attributes,
            vec![Attribute {
                name: "href".to_owned(),
                value: "&notit".to_owned(),
            }]
        ),
        other => panic!("expected start tag, got {other:?}"),
    }
}

#[test]
fn named_character_reference_ending_in_semicolon_resolves_normally_even_in_an_attribute() {
    let tokens = tokenize(r#"<a href="&copy;">"#);
    match &tokens[0].kind {
        TokenKind::StartTag(tag) => assert_eq!(
            tag.attributes,
            vec![Attribute {
                name: "href".to_owned(),
                value: "\u{A9}".to_owned(),
            }]
        ),
        other => panic!("expected start tag, got {other:?}"),
    }
}

#[test]
fn decimal_and_hexadecimal_character_references() {
    assert_eq!(
        kinds(&tokenize("&#65;")),
        vec![&TokenKind::Character('A'), &TokenKind::Eof]
    );
    assert_eq!(
        kinds(&tokenize("&#x41;")),
        vec![&TokenKind::Character('A'), &TokenKind::Eof]
    );
    assert_eq!(
        kinds(&tokenize("&#X41;")),
        vec![&TokenKind::Character('A'), &TokenKind::Eof]
    );
}

#[test]
fn numeric_character_reference_missing_semicolon_still_resolves() {
    assert_eq!(
        kinds(&tokenize("&#65x")),
        vec![
            &TokenKind::Character('A'),
            &TokenKind::Character('x'),
            &TokenKind::Eof,
        ]
    );
}

#[test]
fn numeric_character_reference_null_is_replaced_with_u_fffd() {
    assert_eq!(
        kinds(&tokenize("&#0;")),
        vec![&TokenKind::Character('\u{FFFD}'), &TokenKind::Eof]
    );
}

#[test]
fn numeric_character_reference_outside_unicode_range_is_replaced_with_u_fffd() {
    assert_eq!(
        kinds(&tokenize("&#x110000;")),
        vec![&TokenKind::Character('\u{FFFD}'), &TokenKind::Eof]
    );
}

#[test]
fn numeric_character_reference_surrogate_is_replaced_with_u_fffd() {
    assert_eq!(
        kinds(&tokenize("&#xD800;")),
        vec![&TokenKind::Character('\u{FFFD}'), &TokenKind::Eof]
    );
}

#[test]
fn numeric_character_reference_windows_1252_control_override() {
    assert_eq!(
        kinds(&tokenize("&#128;")),
        vec![&TokenKind::Character('\u{20AC}'), &TokenKind::Eof]
    );
}

#[test]
fn numeric_character_reference_unmapped_c1_control_is_left_unchanged() {
    assert_eq!(
        kinds(&tokenize("&#129;")),
        vec![&TokenKind::Character('\u{81}'), &TokenKind::Eof]
    );
}

#[test]
fn absence_of_digits_in_numeric_character_reference_falls_back_to_literal_text() {
    assert_eq!(
        kinds(&tokenize("&#;")),
        vec![
            &TokenKind::Character('&'),
            &TokenKind::Character('#'),
            &TokenKind::Character(';'),
            &TokenKind::Eof,
        ]
    );
    assert_eq!(
        kinds(&tokenize("&#x;")),
        vec![
            &TokenKind::Character('&'),
            &TokenKind::Character('#'),
            &TokenKind::Character('x'),
            &TokenKind::Character(';'),
            &TokenKind::Eof,
        ]
    );
}

#[test]
fn lone_ampersand_at_eof_is_emitted_literally() {
    assert_eq!(
        kinds(&tokenize("&")),
        vec![&TokenKind::Character('&'), &TokenKind::Eof]
    );
}

#[test]
fn simple_comment() {
    assert_eq!(
        kinds(&tokenize("<!-- hi -->")),
        vec![&TokenKind::Comment(" hi ".to_owned()), &TokenKind::Eof]
    );
}

#[test]
fn abrupt_closing_of_empty_comment_still_emits_an_empty_comment_token() {
    assert_eq!(
        kinds(&tokenize("<!-->")),
        vec![&TokenKind::Comment(String::new()), &TokenKind::Eof]
    );
}

#[test]
fn comment_containing_a_lone_hyphen() {
    assert_eq!(
        kinds(&tokenize("<!-- a - b -->")),
        vec![&TokenKind::Comment(" a - b ".to_owned()), &TokenKind::Eof]
    );
}

#[test]
fn eof_inside_a_comment_still_emits_the_comment_token() {
    assert_eq!(
        kinds(&tokenize("<!-- unterminated")),
        vec![
            &TokenKind::Comment(" unterminated".to_owned()),
            &TokenKind::Eof,
        ]
    );
}

#[test]
fn nested_comment_open_sequence_is_absorbed_as_data_not_a_real_nested_comment() {
    assert_eq!(
        kinds(&tokenize("<!--<!-->")),
        vec![&TokenKind::Comment("<!".to_owned()), &TokenKind::Eof]
    );
}

#[test]
fn incorrectly_opened_comment_falls_back_to_bogus_comment() {
    assert_eq!(
        kinds(&tokenize("<!weird>")),
        vec![&TokenKind::Comment("weird".to_owned()), &TokenKind::Eof]
    );
}

#[test]
fn end_tag_with_invalid_first_character_falls_back_to_bogus_comment() {
    assert_eq!(
        kinds(&tokenize("</1>")),
        vec![&TokenKind::Comment("1".to_owned()), &TokenKind::Eof]
    );
}

#[test]
fn tokenizer_cdata_outside_foreign_content_becomes_a_bogus_comment() {
    assert_eq!(
        kinds(&tokenize("<![CDATA[x]]>")),
        vec![
            &TokenKind::Comment("[CDATA[x]]".to_owned()),
            &TokenKind::Eof,
        ]
    );
}

fn expect_doctype(tokens: &[Token]) -> &DoctypeToken {
    match &tokens[0].kind {
        TokenKind::Doctype(doctype) => doctype,
        other => panic!("expected DOCTYPE token, got {other:?}"),
    }
}

#[test]
fn simple_doctype() {
    let tokens = tokenize("<!DOCTYPE html>");
    assert_eq!(
        expect_doctype(&tokens),
        &DoctypeToken {
            name: Some("html".to_owned()),
            ..Default::default()
        }
    );
    assert_eq!(kinds(&tokens)[1], &TokenKind::Eof);
}

#[test]
fn doctype_keyword_and_name_are_ascii_case_insensitive_lowercased() {
    let tokens = tokenize("<!doctype HTML>");
    assert_eq!(
        expect_doctype(&tokens),
        &DoctypeToken {
            name: Some("html".to_owned()),
            ..Default::default()
        }
    );
}

#[test]
fn doctype_with_no_name_sets_force_quirks() {
    let tokens = tokenize("<!DOCTYPE>");
    assert_eq!(
        expect_doctype(&tokens),
        &DoctypeToken {
            force_quirks: true,
            ..Default::default()
        }
    );
}

#[test]
fn doctype_with_public_and_system_identifiers() {
    let tokens = tokenize(
        r#"<!DOCTYPE html PUBLIC "-//W3C//DTD HTML 4.01//EN" "http://www.w3.org/TR/html4/strict.dtd">"#,
    );
    assert_eq!(
        expect_doctype(&tokens),
        &DoctypeToken {
            name: Some("html".to_owned()),
            public_identifier: Some("-//W3C//DTD HTML 4.01//EN".to_owned()),
            system_identifier: Some("http://www.w3.org/TR/html4/strict.dtd".to_owned()),
            force_quirks: false,
        }
    );
}

#[test]
fn eof_inside_doctype_name_sets_force_quirks_but_keeps_the_partial_name() {
    let tokens = tokenize("<!DOCTYPE html");
    assert_eq!(
        tokens,
        vec![
            Token {
                kind: TokenKind::Doctype(DoctypeToken {
                    name: Some("html".to_owned()),
                    force_quirks: true,
                    ..Default::default()
                }),
                position: pos(1, 1, 0),
            },
            Token {
                kind: TokenKind::Eof,
                position: pos(1, 15, 14),
            },
        ]
    );
}

#[test]
fn unrecognized_text_after_doctype_name_falls_back_to_bogus_doctype() {
    let tokens = tokenize("<!DOCTYPE html GARBAGE>");
    assert_eq!(
        expect_doctype(&tokens),
        &DoctypeToken {
            name: Some("html".to_owned()),
            force_quirks: true,
            ..Default::default()
        }
    );
}

#[test]
fn simple_processing_instruction() {
    let tokens = tokenize("<?foo bar?>");
    assert_eq!(
        kinds(&tokens),
        vec![
            &TokenKind::ProcessingInstruction(ProcessingInstructionToken {
                target: "foo".to_owned(),
                data: "bar".to_owned(),
            }),
            &TokenKind::Eof,
        ]
    );
}

#[test]
fn xml_target_is_disallowed_and_becomes_a_bogus_comment() {
    let tokens = tokenize(r#"<?xml version="1.0"?>"#);
    assert_eq!(
        kinds(&tokens),
        vec![
            &TokenKind::Comment("?xml version=\"1.0\"?".to_owned()),
            &TokenKind::Eof,
        ]
    );
}

#[test]
fn xml_stylesheet_target_is_disallowed_and_becomes_a_bogus_comment() {
    let tokens = tokenize("<?xml-stylesheet foo?>");
    assert_eq!(
        kinds(&tokens),
        vec![
            &TokenKind::Comment("?xml-stylesheet foo?".to_owned()),
            &TokenKind::Eof,
        ]
    );
}

#[test]
fn eof_right_after_question_mark_emits_only_eof_no_token_at_all() {
    assert_eq!(kinds(&tokenize("<?")), vec![&TokenKind::Eof]);
}

#[test]
fn eof_inside_processing_instruction_data_discards_the_pi_token() {
    assert_eq!(kinds(&tokenize("<?foo bar")), vec![&TokenKind::Eof]);
}

#[test]
fn lone_question_marks_inside_processing_instruction_data_are_kept_literally() {
    let tokens = tokenize("<?foo a?b?>");
    assert_eq!(
        kinds(&tokens),
        vec![
            &TokenKind::ProcessingInstruction(ProcessingInstructionToken {
                target: "foo".to_owned(),
                data: "a?b".to_owned(),
            }),
            &TokenKind::Eof,
        ]
    );
}

fn tokenize_switching_after_start_tag(input: &str, state: ExternalState) -> Vec<Token> {
    let mut tokenizer = Tokenizer::new(input);
    let mut tokens = Vec::new();
    while let Some(token) = tokenizer.next() {
        let is_start = matches!(&token.kind, TokenKind::StartTag(_));
        tokens.push(token);
        if is_start {
            tokenizer.switch_to(state);
        }
    }
    tokens
}

fn characters_only(tokens: &[Token]) -> String {
    tokens
        .iter()
        .filter_map(|token| match &token.kind {
            TokenKind::Character(c) => Some(*c),
            _ => None,
        })
        .collect()
}

#[test]
fn rcdata_resolves_character_references_and_ends_on_matching_end_tag() {
    let tokens =
        tokenize_switching_after_start_tag("<title>AT&amp;T</title>", ExternalState::RcData);
    assert_eq!(
        kinds(&tokens),
        vec![
            &TokenKind::StartTag(TagToken {
                name: "title".to_owned(),
                self_closing: false,
                attributes: vec![],
            }),
            &TokenKind::Character('A'),
            &TokenKind::Character('T'),
            &TokenKind::Character('&'),
            &TokenKind::Character('T'),
            &TokenKind::EndTag(TagToken {
                name: "title".to_owned(),
                self_closing: false,
                attributes: vec![],
            }),
            &TokenKind::Eof,
        ]
    );
}

#[test]
fn rcdata_end_tag_with_wrong_name_is_kept_as_literal_text() {
    let tokens =
        tokenize_switching_after_start_tag("<title>a</b>c</title>", ExternalState::RcData);
    assert_eq!(
        characters_only(&tokens[1..tokens.len() - 2]),
        "a</b>c".to_owned()
    );
    match &tokens.last().unwrap().kind {
        TokenKind::Eof => {}
        other => panic!("expected trailing Eof, got {other:?}"),
    }
    match &tokens[tokens.len() - 2].kind {
        TokenKind::EndTag(tag) => assert_eq!(tag.name, "title"),
        other => panic!("expected closing end tag, got {other:?}"),
    }
}

#[test]
fn rawtext_does_not_resolve_character_references() {
    let tokens =
        tokenize_switching_after_start_tag("<style>&amp;</style>", ExternalState::RawText);
    assert_eq!(characters_only(&tokens), "&amp;".to_owned());
}

#[test]
fn plaintext_never_recognizes_any_end_tag_ever_again() {
    let tokens = tokenize_switching_after_start_tag(
        "<plaintext>a</plaintext>b",
        ExternalState::PlainText,
    );
    assert_eq!(characters_only(&tokens), "a</plaintext>b".to_owned());
    match &tokens.last().unwrap().kind {
        TokenKind::Eof => {}
        other => panic!("expected trailing Eof, got {other:?}"),
    }
}

#[test]
fn appropriate_end_tag_requires_a_start_tag_to_have_been_emitted_first() {
    let mut tokenizer = Tokenizer::new("</title>");
    tokenizer.switch_to(ExternalState::RcData);
    let tokens: Vec<_> = collect(tokenizer);
    assert_eq!(characters_only(&tokens), "</title>".to_owned());
    assert_eq!(tokens.last().unwrap().kind, TokenKind::Eof);
}

#[test]
fn script_data_plain_content_no_html_comment_like_wrapper() {
    let tokens = tokenize_switching_after_start_tag(
        "<script>var x = 1;</script>",
        ExternalState::ScriptData,
    );
    assert_eq!(characters_only(&tokens), "var x = 1;".to_owned());
    match &tokens[tokens.len() - 2].kind {
        TokenKind::EndTag(tag) => assert_eq!(tag.name, "script"),
        other => panic!("expected closing end tag, got {other:?}"),
    }
}

#[test]
fn script_data_does_not_resolve_character_references_either() {
    let tokens =
        tokenize_switching_after_start_tag("<script>&amp;</script>", ExternalState::ScriptData);
    assert_eq!(characters_only(&tokens), "&amp;".to_owned());
}

#[test]
fn script_data_html_comment_like_wrapper_round_trips_literally() {
    let source = "<!--alert(1);-->";
    let tokens = tokenize_switching_after_start_tag(
        &format!("<script>{source}</script>"),
        ExternalState::ScriptData,
    );
    assert_eq!(characters_only(&tokens), source.to_owned());
    match &tokens[tokens.len() - 2].kind {
        TokenKind::EndTag(tag) => assert_eq!(tag.name, "script"),
        other => panic!("expected closing end tag, got {other:?}"),
    }
}

#[test]
fn nested_script_tags_inside_html_comment_like_wrapper_do_not_end_the_element_early() {
    let source = "<!--<script>x</script>-->";
    let tokens = tokenize_switching_after_start_tag(
        &format!("<script>{source}</script>"),
        ExternalState::ScriptData,
    );
    assert_eq!(characters_only(&tokens), source.to_owned());
    let end_tags: Vec<_> = tokens
        .iter()
        .filter(|token| matches!(&token.kind, TokenKind::EndTag(_)))
        .collect();
    assert_eq!(
        end_tags.len(),
        1,
        "only the real closing tag should be an end tag token, not the one nested inside the comment-like wrapper"
    );
}

#[test]
fn script_data_end_tag_with_wrong_name_is_kept_as_literal_text() {
    let tokens = tokenize_switching_after_start_tag(
        "<script>a</scriptx>b</script>",
        ExternalState::ScriptData,
    );
    assert_eq!(characters_only(&tokens), "a</scriptx>b".to_owned());
    let end_tags: Vec<_> = tokens
        .iter()
        .filter_map(|token| match &token.kind {
            TokenKind::EndTag(tag) => Some(tag.name.as_str()),
            _ => None,
        })
        .collect();
    assert_eq!(end_tags, vec!["script"]);
}

fn tokenize_in_foreign_content(input: &str) -> Vec<Token> {
    let mut tokenizer = Tokenizer::new(input);
    tokenizer.set_in_foreign_content(true);
    collect(tokenizer)
}

#[test]
fn cdata_section_outside_foreign_content_still_becomes_a_bogus_comment() {
    assert_eq!(
        kinds(&tokenize("<![CDATA[x]]>")),
        vec![
            &TokenKind::Comment("[CDATA[x]]".to_owned()),
            &TokenKind::Eof,
        ]
    );
}

#[test]
fn cdata_section_in_foreign_content_yields_character_tokens() {
    assert_eq!(
        kinds(&tokenize_in_foreign_content("<![CDATA[hi]]>")),
        vec![
            &TokenKind::Character('h'),
            &TokenKind::Character('i'),
            &TokenKind::Eof,
        ]
    );
}

#[test]
fn cdata_section_null_character_is_kept_literal_not_replaced() {
    assert_eq!(
        kinds(&tokenize_in_foreign_content("<![CDATA[\u{0}]]>")),
        vec![&TokenKind::Character('\u{0}'), &TokenKind::Eof]
    );
}

#[test]
fn cdata_section_single_bracket_not_followed_by_another_is_literal_content() {
    let tokens = tokenize_in_foreign_content("<![CDATA[a]b]]>");
    assert_eq!(
        kinds(&tokens),
        vec![
            &TokenKind::Character('a'),
            &TokenKind::Character(']'),
            &TokenKind::Character('b'),
            &TokenKind::Eof,
        ]
    );
}

#[test]
fn cdata_section_three_consecutive_brackets_then_close_keeps_only_the_first_as_content() {
    let tokens = tokenize_in_foreign_content("<![CDATA[]]]>");
    assert_eq!(
        tokens,
        vec![
            Token {
                kind: TokenKind::Character(']'),
                position: pos(1, 10, 9),
            },
            Token {
                kind: TokenKind::Eof,
                position: pos(1, 14, 13),
            },
        ]
    );
}

#[test]
fn cdata_section_four_consecutive_brackets_then_close_keeps_first_two_as_content() {
    let tokens = tokenize_in_foreign_content("<![CDATA[]]]]>");
    assert_eq!(
        kinds(&tokens),
        vec![
            &TokenKind::Character(']'),
            &TokenKind::Character(']'),
            &TokenKind::Eof,
        ]
    );
}

#[test]
fn eof_inside_cdata_section_emits_eof_after_any_withheld_brackets_flush() {
    let tokens = tokenize_in_foreign_content("<![CDATA[a]");
    assert_eq!(
        kinds(&tokens),
        vec![
            &TokenKind::Character('a'),
            &TokenKind::Character(']'),
            &TokenKind::Eof,
        ]
    );
}

#[test]
fn tokenizer_level_parse_errors_fire_with_the_right_kind() {
    let cases: &[(&str, ParseErrorKind)] = &[
        ("<![CDATA[x]]>", ParseErrorKind::CdataInHtmlContent),
        ("<!x>", ParseErrorKind::IncorrectlyOpenedComment),
        ("<!-->", ParseErrorKind::AbruptClosingOfEmptyComment),
        ("<!--<!--x-->", ParseErrorKind::NestedComment),
        ("<!--x--!>", ParseErrorKind::IncorrectlyClosedComment),
        ("<!--", ParseErrorKind::EofInComment),
        ("<1>", ParseErrorKind::InvalidFirstCharacterOfTagName),
        ("<", ParseErrorKind::EofBeforeTagName),
        ("</>", ParseErrorKind::MissingEndTagName),
        ("<p x=", ParseErrorKind::EofInTag),
        (r#"<p id="a" id="b">"#, ParseErrorKind::DuplicateAttribute),
        ("\0", ParseErrorKind::UnexpectedNullCharacter),
        (
            r#"<p ">"#,
            ParseErrorKind::UnexpectedCharacterInAttributeName,
        ),
        ("<p x=>", ParseErrorKind::MissingAttributeValue),
        (
            r#"<p x=a"b>"#,
            ParseErrorKind::UnexpectedCharacterInUnquotedAttributeValue,
        ),
        (
            r#"<p x="a"y="b">"#,
            ParseErrorKind::MissingWhitespaceBetweenAttributes,
        ),
        ("<p/ x>", ParseErrorKind::UnexpectedSolidusInTag),
        (
            "<p =>",
            ParseErrorKind::UnexpectedEqualsSignBeforeAttributeName,
        ),
        ("&zzz;", ParseErrorKind::UnknownNamedCharacterReference),
        (
            "&#;",
            ParseErrorKind::AbsenceOfDigitsInNumericCharacterReference,
        ),
        (
            "&#65 ",
            ParseErrorKind::MissingSemicolonAfterCharacterReference,
        ),
        ("&#0;", ParseErrorKind::NullCharacterReference),
        (
            "&#x110000;",
            ParseErrorKind::CharacterReferenceOutsideUnicodeRange,
        ),
        ("&#xD800;", ParseErrorKind::SurrogateCharacterReference),
        ("&#xFFFE;", ParseErrorKind::NoncharacterCharacterReference),
        ("&#x01;", ParseErrorKind::ControlCharacterReference),
        (
            "<!DOCTYPEhtml>",
            ParseErrorKind::MissingWhitespaceBeforeDoctypeName,
        ),
        ("<!DOCTYPE >", ParseErrorKind::MissingDoctypeName),
        (
            "<!DOCTYPE html foo>",
            ParseErrorKind::InvalidCharacterSequenceAfterDoctypeName,
        ),
        (
            r#"<!DOCTYPE html PUBLIC "a""b">"#,
            ParseErrorKind::MissingWhitespaceBetweenDoctypePublicAndSystemIdentifiers,
        ),
        (
            r#"<!DOCTYPE html SYSTEM "a"b>"#,
            ParseErrorKind::UnexpectedCharacterAfterDoctypeSystemIdentifier,
        ),
        ("<!DOCTYPE", ParseErrorKind::EofInDoctype),
        ("<?", ParseErrorKind::EofInProcessingInstruction),
        (
            "<? >",
            ParseErrorKind::InvalidFirstCharacterOfProcessingInstructionTarget,
        ),
        ("<?a$>", ParseErrorKind::InvalidProcessingInstructionTarget),
        (
            "<?xml?>",
            ParseErrorKind::DisallowedProcessingInstructionTarget,
        ),
    ];
    for (input, expected_kind) in cases {
        let errors = errors_for(input);
        assert!(
            errors.contains(expected_kind),
            "input {input:?}: expected {expected_kind:?} among {errors:?}"
        );
    }
}

#[test]
fn eof_in_cdata_fires_in_foreign_content() {
    let mut tokenizer = Tokenizer::new("<![CDATA[abc");
    tokenizer.set_in_foreign_content(true);
    while tokenizer.next().is_some() {}
    let kinds: Vec<_> = tokenizer
        .take_errors()
        .into_iter()
        .map(|error| error.kind)
        .collect();
    assert!(kinds.contains(&ParseErrorKind::EofInCdata));
}

#[test]
fn eof_in_script_html_comment_like_text_fires_mid_wrapper() {
    let mut tokenizer = Tokenizer::new("<script><!--x");
    while let Some(token) = tokenizer.next() {
        if matches!(&token.kind, TokenKind::StartTag(_)) {
            tokenizer.switch_to(ExternalState::ScriptData);
        }
    }
    let kinds: Vec<_> = tokenizer
        .take_errors()
        .into_iter()
        .map(|error| error.kind)
        .collect();
    assert!(kinds.contains(&ParseErrorKind::EofInScriptHtmlCommentLikeText));
}
