//! Quirks mode, as a DOCTYPE asks for it.
use vstd::prelude::*;

use crate::text::{
    eq_ignore_ascii_case, listed_ignoring_case, one_of_ignore_ascii_case, same_ignoring_case,
    some_prefix_listed, starts_with_one_of, str_eq,
};
use crate::token::{DoctypeModel, DoctypeToken};

verus! {

/// How closely a document follows the rules of layout. It decides whether a
/// table closes an open paragraph.
#[derive(Debug, Clone, Copy, PartialEq, Eq, Structural)]
pub enum QuirksMode {
    NoQuirks,
    Quirks,
    LimitedQuirks,
}

/// The system identifier that asks for quirks mode.
pub const QUIRKS_SYSTEM_IDENTIFIER: &'static str =
    "http://www.ibm.com/data/dtd/v11/ibmxhtml1-transitional.dtd";

/// Public identifiers that ask for quirks mode.
pub const QUIRKS_PUBLIC_IDENTIFIERS: [&'static str; 3] = [
    "-//W3O//DTD W3 HTML Strict 3.0//EN//",
    "-/W3C/DTD HTML 4.0 Transitional/EN",
    "HTML",
];

/// Beginnings of public identifiers that ask for quirks mode.
pub const QUIRKS_PUBLIC_PREFIXES: [&'static str; 55] = [
    "+//Silmaril//dtd html Pro v0r11 19970101//",
    "-//AS//DTD HTML 3.0 asWedit + extensions//",
    "-//AdvaSoft Ltd//DTD HTML 3.0 asWedit + extensions//",
    "-//IETF//DTD HTML 2.0 Level 1//",
    "-//IETF//DTD HTML 2.0 Level 2//",
    "-//IETF//DTD HTML 2.0 Strict Level 1//",
    "-//IETF//DTD HTML 2.0 Strict Level 2//",
    "-//IETF//DTD HTML 2.0 Strict//",
    "-//IETF//DTD HTML 2.0//",
    "-//IETF//DTD HTML 2.1E//",
    "-//IETF//DTD HTML 3.0//",
    "-//IETF//DTD HTML 3.2 Final//",
    "-//IETF//DTD HTML 3.2//",
    "-//IETF//DTD HTML 3//",
    "-//IETF//DTD HTML Level 0//",
    "-//IETF//DTD HTML Level 1//",
    "-//IETF//DTD HTML Level 2//",
    "-//IETF//DTD HTML Level 3//",
    "-//IETF//DTD HTML Strict Level 0//",
    "-//IETF//DTD HTML Strict Level 1//",
    "-//IETF//DTD HTML Strict Level 2//",
    "-//IETF//DTD HTML Strict Level 3//",
    "-//IETF//DTD HTML Strict//",
    "-//IETF//DTD HTML//",
    "-//Metrius//DTD Metrius Presentational//",
    "-//Microsoft//DTD Internet Explorer 2.0 HTML Strict//",
    "-//Microsoft//DTD Internet Explorer 2.0 HTML//",
    "-//Microsoft//DTD Internet Explorer 2.0 Tables//",
    "-//Microsoft//DTD Internet Explorer 3.0 HTML Strict//",
    "-//Microsoft//DTD Internet Explorer 3.0 HTML//",
    "-//Microsoft//DTD Internet Explorer 3.0 Tables//",
    "-//Netscape Comm. Corp.//DTD HTML//",
    "-//Netscape Comm. Corp.//DTD Strict HTML//",
    "-//O'Reilly and Associates//DTD HTML 2.0//",
    "-//O'Reilly and Associates//DTD HTML Extended 1.0//",
    "-//O'Reilly and Associates//DTD HTML Extended Relaxed 1.0//",
    "-//SQ//DTD HTML 2.0 HoTMetaL + extensions//",
    "-//SoftQuad Software//DTD HoTMetaL PRO 6.0::19990601::extensions to HTML 4.0//",
    "-//SoftQuad//DTD HoTMetaL PRO 4.0::19971010::extensions to HTML 4.0//",
    "-//Spyglass//DTD HTML 2.0 Extended//",
    "-//Sun Microsystems Corp.//DTD HotJava HTML//",
    "-//Sun Microsystems Corp.//DTD HotJava Strict HTML//",
    "-//W3C//DTD HTML 3 1995-03-24//",
    "-//W3C//DTD HTML 3.2 Draft//",
    "-//W3C//DTD HTML 3.2 Final//",
    "-//W3C//DTD HTML 3.2//",
    "-//W3C//DTD HTML 3.2S Draft//",
    "-//W3C//DTD HTML 4.0 Frameset//",
    "-//W3C//DTD HTML 4.0 Transitional//",
    "-//W3C//DTD HTML Experimental 19960712//",
    "-//W3C//DTD HTML Experimental 970421//",
    "-//W3C//DTD W3 HTML//",
    "-//W3O//DTD W3 HTML 3.0//",
    "-//WebTechs//DTD Mozilla HTML 2.0//",
    "-//WebTechs//DTD Mozilla HTML//",
];

/// Beginnings of public identifiers that ask for quirks mode where there is no
/// system identifier, and for limited-quirks mode where there is one.
pub const QUIRKS_PREFIXES_WITHOUT_SYSTEM: [&'static str; 2] = [
    "-//W3C//DTD HTML 4.01 Frameset//",
    "-//W3C//DTD HTML 4.01 Transitional//",
];

/// Beginnings of public identifiers that ask for limited-quirks mode.
pub const LIMITED_QUIRKS_PREFIXES: [&'static str; 2] = [
    "-//W3C//DTD XHTML 1.0 Frameset//",
    "-//W3C//DTD XHTML 1.0 Transitional//",
];

/// A public identifier that always asks for quirks mode.
#[verifier::opaque]
pub open spec fn quirky_public_identifier(id: Seq<char>) -> bool {
    listed_ignoring_case(QUIRKS_PUBLIC_IDENTIFIERS@, id) || some_prefix_listed(
        QUIRKS_PUBLIC_PREFIXES@,
        id,
    )
}

/// A public identifier that asks for quirks mode without a system identifier,
/// and for limited-quirks mode with one.
#[verifier::opaque]
pub open spec fn quirky_without_system_identifier(id: Seq<char>) -> bool {
    some_prefix_listed(QUIRKS_PREFIXES_WITHOUT_SYSTEM@, id)
}

/// A public identifier that asks for limited-quirks mode.
#[verifier::opaque]
pub open spec fn limited_public_identifier(id: Seq<char>) -> bool {
    some_prefix_listed(LIMITED_QUIRKS_PREFIXES@, id)
}

/// The mode that a DOCTYPE asks for. A system identifier that is empty counts
/// as missing where the two are told apart.
pub open spec fn quirks_mode_of(doctype: DoctypeModel) -> QuirksMode {
    let no_system = match doctype.system_identifier {
        Some(id) => id.len() == 0,
        None => true,
    };
    let quirky_system = match doctype.system_identifier {
        Some(id) => same_ignoring_case(id, QUIRKS_SYSTEM_IDENTIFIER@),
        None => false,
    };
    if doctype.force_quirks || doctype.name != Some("html"@) || quirky_system {
        QuirksMode::Quirks
    } else {
        match doctype.public_identifier {
            None => QuirksMode::NoQuirks,
            Some(id) => if quirky_public_identifier(id) || (no_system
                && quirky_without_system_identifier(id)) {
                QuirksMode::Quirks
            } else if limited_public_identifier(id) || quirky_without_system_identifier(id) {
                QuirksMode::LimitedQuirks
            } else {
                QuirksMode::NoQuirks
            },
        }
    }
}

/// The mode that a DOCTYPE asks for.
pub fn determine_quirks_mode(doctype: &DoctypeToken) -> (r: QuirksMode)
    ensures
        r == quirks_mode_of(doctype@),
{
    proof {
        reveal(quirky_public_identifier);
        reveal(quirky_without_system_identifier);
        reveal(limited_public_identifier);
    }
    let named_html = match &doctype.name {
        Some(name) => str_eq(name.as_str(), "html"),
        None => false,
    };
    let (no_system, quirky_system) = match &doctype.system_identifier {
        Some(id) => (
            id.as_str().is_empty(),
            eq_ignore_ascii_case(id.as_str(), QUIRKS_SYSTEM_IDENTIFIER),
        ),
        None => (true, false),
    };
    if doctype.force_quirks || !named_html || quirky_system {
        return QuirksMode::Quirks;
    }
    match &doctype.public_identifier {
        None => QuirksMode::NoQuirks,
        Some(id) => {
            let id = id.as_str();
            let split = starts_with_one_of(&QUIRKS_PREFIXES_WITHOUT_SYSTEM, id);
            if one_of_ignore_ascii_case(&QUIRKS_PUBLIC_IDENTIFIERS, id) || starts_with_one_of(
                &QUIRKS_PUBLIC_PREFIXES,
                id,
            ) || (no_system && split) {
                QuirksMode::Quirks
            } else if starts_with_one_of(&LIMITED_QUIRKS_PREFIXES, id) || split {
                QuirksMode::LimitedQuirks
            } else {
                QuirksMode::NoQuirks
            }
        },
    }
}

/// A DOCTYPE that went wrong, or that is not for `html`, asks for quirks mode.
pub proof fn lemma_wrong_doctype_is_quirky(doctype: DoctypeModel)
    requires
        doctype.force_quirks || doctype.name != Some("html"@),
    ensures
        quirks_mode_of(doctype) is Quirks,
{
}

/// A DOCTYPE for `html` without identifiers asks for no quirks.
pub proof fn lemma_plain_doctype_has_no_quirks(doctype: DoctypeModel)
    requires
        !doctype.force_quirks,
        doctype.name == Some("html"@),
        doctype.public_identifier is None,
        doctype.system_identifier is None,
    ensures
        quirks_mode_of(doctype) is NoQuirks,
{
}

} // verus!
