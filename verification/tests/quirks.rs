//! The quirks mode that a DOCTYPE asks for.
use html5_parser::tokenizer::DoctypeToken;
use html5_parser::tree_builder::quirks::{determine_quirks_mode, QuirksMode};

fn doctype(
    name: Option<&str>,
    public_identifier: Option<&str>,
    system_identifier: Option<&str>,
    force_quirks: bool,
) -> DoctypeToken {
    DoctypeToken {
        name: name.map(str::to_owned),
        public_identifier: public_identifier.map(str::to_owned),
        system_identifier: system_identifier.map(str::to_owned),
        force_quirks,
    }
}

#[test]
fn html5_doctype_is_no_quirks() {
    let token = doctype(Some("html"), None, None, false);
    assert_eq!(determine_quirks_mode(&token), QuirksMode::NoQuirks);
}

#[test]
fn force_quirks_flag_wins_regardless_of_everything_else() {
    let token = doctype(Some("html"), None, None, true);
    assert_eq!(determine_quirks_mode(&token), QuirksMode::Quirks);
}

#[test]
fn missing_doctype_name_is_quirks() {
    let token = doctype(None, None, None, false);
    assert_eq!(determine_quirks_mode(&token), QuirksMode::Quirks);
}

#[test]
fn exact_public_identifier_match_is_quirks_case_insensitively() {
    let token = doctype(Some("html"), Some("html"), None, false);
    assert_eq!(determine_quirks_mode(&token), QuirksMode::Quirks);
}

#[test]
fn html4_transitional_without_system_identifier_is_quirks() {
    let token = doctype(
        Some("html"),
        Some("-//W3C//DTD HTML 4.01 Transitional//EN"),
        None,
        false,
    );
    assert_eq!(determine_quirks_mode(&token), QuirksMode::Quirks);
}

#[test]
fn html4_transitional_with_system_identifier_is_limited_quirks() {
    let token = doctype(
        Some("html"),
        Some("-//W3C//DTD HTML 4.01 Transitional//EN"),
        Some("http://www.w3.org/TR/html4/loose.dtd"),
        false,
    );
    assert_eq!(determine_quirks_mode(&token), QuirksMode::LimitedQuirks);
}

#[test]
fn xhtml_transitional_is_always_limited_quirks() {
    let token = doctype(
        Some("html"),
        Some("-//W3C//DTD XHTML 1.0 Transitional//EN"),
        Some("http://www.w3.org/TR/xhtml1/DTD/xhtml1-transitional.dtd"),
        false,
    );
    assert_eq!(determine_quirks_mode(&token), QuirksMode::LimitedQuirks);
}

#[test]
fn empty_system_identifier_counts_as_missing_for_the_html4_split() {
    let token = doctype(
        Some("html"),
        Some("-//W3C//DTD HTML 4.01 Frameset//EN"),
        Some(""),
        false,
    );
    assert_eq!(determine_quirks_mode(&token), QuirksMode::Quirks);
}

#[test]
fn ibm_system_identifier_is_quirks() {
    let token = doctype(
        Some("html"),
        None,
        Some("http://www.ibm.com/data/dtd/v11/ibmxhtml1-transitional.dtd"),
        false,
    );
    assert_eq!(determine_quirks_mode(&token), QuirksMode::Quirks);
}
