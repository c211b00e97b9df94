//! The errors that tree construction reports.
use html5_parser::{parse, ParseErrorKind};

fn kinds(input: &str) -> Vec<ParseErrorKind> {
    parse(input)
        .errors
        .into_iter()
        .map(|error| error.kind)
        .collect()
}

fn assert_raises(input: &str, expected: ParseErrorKind) {
    let raised = kinds(input);
    assert!(
        raised.contains(&expected),
        "expected {expected:?} for {input:?}, got {raised:?}"
    );
}

fn assert_does_not_raise(input: &str, unexpected: ParseErrorKind) {
    let raised = kinds(input);
    assert!(
        !raised.contains(&unexpected),
        "expected no {unexpected:?} for {input:?}, got {raised:?}"
    );
}

#[test]
fn implied_p_end_tag_with_unclosed_elements() {
    assert_raises(
        "<!doctype html><p><span><div>",
        ParseErrorKind::ImpliedEndTagWithUnclosedElements,
    );
    assert_does_not_raise(
        "<!doctype html><p>text<div>",
        ParseErrorKind::ImpliedEndTagWithUnclosedElements,
    );
}

#[test]
fn p_end_tag_without_p_in_button_scope() {
    assert_raises(
        "<!doctype html><body></p>",
        ParseErrorKind::EndTagPWithoutPInButtonScope,
    );
    assert_does_not_raise(
        "<!doctype html><p>text</p>",
        ParseErrorKind::EndTagPWithoutPInButtonScope,
    );
}

#[test]
fn stray_end_tag_with_no_matching_open_element() {
    assert_raises("<!doctype html><body></span>", ParseErrorKind::StrayEndTag);
    assert_does_not_raise("<!doctype html><span>x</span>", ParseErrorKind::StrayEndTag);
}

#[test]
fn end_tag_br() {
    assert_raises("<!doctype html></br>", ParseErrorKind::EndTagBr);
}

#[test]
fn self_closing_syntax_on_a_non_void_element() {
    assert_raises(
        "<!doctype html><div/></div>",
        ParseErrorKind::NonVoidHtmlElementStartTagWithTrailingSolidus,
    );
    assert_does_not_raise(
        "<!doctype html><br/>",
        ParseErrorKind::NonVoidHtmlElementStartTagWithTrailingSolidus,
    );
    assert_does_not_raise(
        "<!doctype html><svg><rect/></svg>",
        ParseErrorKind::NonVoidHtmlElementStartTagWithTrailingSolidus,
    );
}

#[test]
fn eof_with_unclosed_elements() {
    assert_raises(
        "<!doctype html><div>",
        ParseErrorKind::EofWithUnclosedElements,
    );
    assert_does_not_raise(
        "<!doctype html><p>text",
        ParseErrorKind::EofWithUnclosedElements,
    );
}

#[test]
fn eof_in_text_mode() {
    assert_raises(
        "<!doctype html><script>var x = 1;",
        ParseErrorKind::EofInTextMode,
    );
    assert_does_not_raise(
        "<!doctype html><script>var x = 1;</script>",
        ParseErrorKind::EofInTextMode,
    );
}

#[test]
fn start_tag_image() {
    assert_raises(
        "<!doctype html><image src=x>",
        ParseErrorKind::StartTagImage,
    );
    assert_does_not_raise("<!doctype html><img src=x>", ParseErrorKind::StartTagImage);
}

#[test]
fn nested_form() {
    assert_raises("<!doctype html><form><form>", ParseErrorKind::NestedForm);
    assert_does_not_raise(
        "<!doctype html><form></form><form>",
        ParseErrorKind::NestedForm,
    );
}

#[test]
fn start_tag_table_while_a_table_is_open() {
    assert_raises(
        "<!doctype html><table><table></table></table>",
        ParseErrorKind::StartTagTableInTable,
    );
    assert_does_not_raise(
        "<!doctype html><table></table><table></table>",
        ParseErrorKind::StartTagTableInTable,
    );
}

#[test]
fn misplaced_token_in_table() {
    assert_raises(
        "<!doctype html><table><select></select></table>",
        ParseErrorKind::MisplacedTokenInTable,
    );
    assert_raises(
        "<!doctype html><table><input></table>",
        ParseErrorKind::MisplacedTokenInTable,
    );
    assert_does_not_raise(
        "<!doctype html><table><tr><td>x</td></tr></table>",
        ParseErrorKind::MisplacedTokenInTable,
    );
}

#[test]
fn non_space_characters_in_table() {
    let raised = kinds("<!doctype html><table>text</table>");
    assert_eq!(
        raised
            .iter()
            .filter(|kind| **kind == ParseErrorKind::NonSpaceCharactersInTable)
            .count(),
        1,
        "got {raised:?}"
    );
    assert_does_not_raise(
        "<!doctype html><table>   </table>",
        ParseErrorKind::NonSpaceCharactersInTable,
    );
}

#[test]
fn stray_end_tag_in_table() {
    assert_raises(
        "<!doctype html><table></tr></table>",
        ParseErrorKind::StrayEndTagInTable,
    );
}

#[test]
fn token_after_body() {
    assert_raises(
        "<!doctype html><body></body>text",
        ParseErrorKind::TokenAfterBody,
    );
    assert_raises(
        "<!doctype html><body></body><p>x</p>",
        ParseErrorKind::TokenAfterBody,
    );
    assert_does_not_raise(
        "<!doctype html><body></body>\n",
        ParseErrorKind::TokenAfterBody,
    );
}

#[test]
fn stray_doctype() {
    assert_raises(
        "<!doctype html><title>t</title><!doctype html>",
        ParseErrorKind::StrayDoctype,
    );
    assert_raises(
        "<!doctype html><body>x<!doctype html>",
        ParseErrorKind::StrayDoctype,
    );
    assert_does_not_raise(
        "<!doctype html><title>t</title>",
        ParseErrorKind::StrayDoctype,
    );
}

#[test]
fn errors_from_both_stages_are_merged_in_document_order() {
    let errors = parse("<!doctype html><p>&notAnEntity;<span><div></p>").errors;
    assert!(
        errors.len() >= 2,
        "expected both a tokenizer and a tree-construction error, got {errors:?}"
    );
    assert!(
        errors
            .windows(2)
            .all(|pair| pair[0].position.byte_offset <= pair[1].position.byte_offset),
        "not in document order: {errors:?}"
    );
}
