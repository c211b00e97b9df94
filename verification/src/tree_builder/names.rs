//! The names that tree construction tells apart: namespaces, groups of elements
//! and the names that foreign content spells in its own way.
use vstd::prelude::*;

use crate::text::{listed, one_of, str_eq};

verus! {

pub const HTML_NAMESPACE: &'static str = "http://www.w3.org/1999/xhtml";

pub const SVG_NAMESPACE: &'static str = "http://www.w3.org/2000/svg";

pub const MATHML_NAMESPACE: &'static str = "http://www.w3.org/1998/Math/MathML";

pub const XLINK_NAMESPACE: &'static str = "http://www.w3.org/1999/xlink";

pub const XML_NAMESPACE: &'static str = "http://www.w3.org/XML/1998/namespace";

pub const XMLNS_NAMESPACE: &'static str = "http://www.w3.org/2000/xmlns/";

/// The HTML elements that bound every scope.
pub const DEFAULT_SCOPE: [&'static str; 10] = [
    "applet",
    "caption",
    "html",
    "table",
    "td",
    "th",
    "marquee",
    "object",
    "select",
    "template",
];

/// One of the HTML elements that bound every scope.
#[verifier::opaque]
pub open spec fn in_default_scope(name: Seq<char>) -> bool {
    listed(DEFAULT_SCOPE@, name)
}

/// Whether a name is that of one of the HTML elements that bound every scope.
pub fn is_default_scope(name: &str) -> (r: bool)
    ensures
        r == in_default_scope(name@),
{
    proof {
        reveal(in_default_scope);
    }
    one_of(&DEFAULT_SCOPE, name)
}

/// The HTML elements that bound table scope.
pub const TABLE_SCOPE: [&'static str; 3] = [
    "html",
    "table",
    "template",
];

/// One of the HTML elements that bound table scope.
#[verifier::opaque]
pub open spec fn in_table_scope(name: Seq<char>) -> bool {
    listed(TABLE_SCOPE@, name)
}

/// Whether a name is that of one of the HTML elements that bound table scope.
pub fn is_table_scope(name: &str) -> (r: bool)
    ensures
        r == in_table_scope(name@),
{
    proof {
        reveal(in_table_scope);
    }
    one_of(&TABLE_SCOPE, name)
}

/// The further elements that bound list item scope.
pub const LIST_ITEM_SCOPE: [&'static str; 2] = [
    "ol",
    "ul",
];

/// One of the further elements that bound list item scope.
#[verifier::opaque]
pub open spec fn in_list_item_scope(name: Seq<char>) -> bool {
    listed(LIST_ITEM_SCOPE@, name)
}

/// Whether a name is that of one of the further elements that bound list item scope.
pub fn is_list_item_scope(name: &str) -> (r: bool)
    ensures
        r == in_list_item_scope(name@),
{
    proof {
        reveal(in_list_item_scope);
    }
    one_of(&LIST_ITEM_SCOPE, name)
}

/// The special HTML elements.
pub const SPECIAL: [&'static str; 83] = [
    "address",
    "applet",
    "area",
    "article",
    "aside",
    "base",
    "basefont",
    "bgsound",
    "blockquote",
    "body",
    "br",
    "button",
    "caption",
    "center",
    "col",
    "colgroup",
    "dd",
    "details",
    "dir",
    "div",
    "dl",
    "dt",
    "embed",
    "fieldset",
    "figcaption",
    "figure",
    "footer",
    "form",
    "frame",
    "frameset",
    "h1",
    "h2",
    "h3",
    "h4",
    "h5",
    "h6",
    "head",
    "header",
    "hgroup",
    "hr",
    "html",
    "iframe",
    "img",
    "input",
    "keygen",
    "li",
    "link",
    "listing",
    "main",
    "marquee",
    "menu",
    "meta",
    "nav",
    "noembed",
    "noframes",
    "noscript",
    "object",
    "ol",
    "p",
    "param",
    "plaintext",
    "pre",
    "script",
    "search",
    "section",
    "select",
    "source",
    "style",
    "summary",
    "table",
    "tbody",
    "td",
    "template",
    "textarea",
    "tfoot",
    "th",
    "thead",
    "title",
    "tr",
    "track",
    "ul",
    "wbr",
    "xmp",
];

/// One of the special HTML elements.
#[verifier::opaque]
pub open spec fn in_special(name: Seq<char>) -> bool {
    listed(SPECIAL@, name)
}

/// Whether a name is that of one of the special HTML elements.
pub fn is_special(name: &str) -> (r: bool)
    ensures
        r == in_special(name@),
{
    proof {
        reveal(in_special);
    }
    one_of(&SPECIAL, name)
}

/// The elements whose end tags can be implied.
pub const IMPLIED_END_TAGS: [&'static str; 10] = [
    "dd",
    "dt",
    "li",
    "optgroup",
    "option",
    "p",
    "rb",
    "rp",
    "rt",
    "rtc",
];

/// One of the elements whose end tags can be implied.
#[verifier::opaque]
pub open spec fn in_implied_end_tags(name: Seq<char>) -> bool {
    listed(IMPLIED_END_TAGS@, name)
}

/// Whether a name is that of one of the elements whose end tags can be implied.
pub fn is_implied_end_tags(name: &str) -> (r: bool)
    ensures
        r == in_implied_end_tags(name@),
{
    proof {
        reveal(in_implied_end_tags);
    }
    one_of(&IMPLIED_END_TAGS, name)
}

/// The elements whose end tags are implied at the end of a template.
pub const IMPLIED_END_TAGS_THOROUGHLY: [&'static str; 18] = [
    "caption",
    "colgroup",
    "dd",
    "dt",
    "li",
    "optgroup",
    "option",
    "p",
    "rb",
    "rp",
    "rt",
    "rtc",
    "tbody",
    "td",
    "tfoot",
    "th",
    "thead",
    "tr",
];

/// One of the elements whose end tags are implied at the end of a template.
#[verifier::opaque]
pub open spec fn in_implied_end_tags_thoroughly(name: Seq<char>) -> bool {
    listed(IMPLIED_END_TAGS_THOROUGHLY@, name)
}

/// Whether a name is that of one of the elements whose end tags are implied at
/// the end of a template.
pub fn is_implied_end_tags_thoroughly(name: &str) -> (r: bool)
    ensures
        r == in_implied_end_tags_thoroughly(name@),
{
    proof {
        reveal(in_implied_end_tags_thoroughly);
    }
    one_of(&IMPLIED_END_TAGS_THOROUGHLY, name)
}

/// The MathML elements that bound a scope, which are special too.
pub const MATHML_BOUNDARIES: [&'static str; 6] = [
    "mi",
    "mo",
    "mn",
    "ms",
    "mtext",
    "annotation-xml",
];

/// One of the MathML elements that bound a scope, which are special too.
#[verifier::opaque]
pub open spec fn in_mathml_boundaries(name: Seq<char>) -> bool {
    listed(MATHML_BOUNDARIES@, name)
}

/// Whether a name is that of one of the MathML elements that bound a scope, which are special too.
pub fn is_mathml_boundaries(name: &str) -> (r: bool)
    ensures
        r == in_mathml_boundaries(name@),
{
    proof {
        reveal(in_mathml_boundaries);
    }
    one_of(&MATHML_BOUNDARIES, name)
}

/// The SVG elements that bound a scope, which are special too.
pub const SVG_BOUNDARIES: [&'static str; 3] = [
    "foreignObject",
    "desc",
    "title",
];

/// One of the SVG elements that bound a scope, which are special too.
#[verifier::opaque]
pub open spec fn in_svg_boundaries(name: Seq<char>) -> bool {
    listed(SVG_BOUNDARIES@, name)
}

/// Whether a name is that of one of the SVG elements that bound a scope, which are special too.
pub fn is_svg_boundaries(name: &str) -> (r: bool)
    ensures
        r == in_svg_boundaries(name@),
{
    proof {
        reveal(in_svg_boundaries);
    }
    one_of(&SVG_BOUNDARIES, name)
}

/// The MathML text integration points.
pub const MATHML_TEXT: [&'static str; 5] = [
    "mi",
    "mo",
    "mn",
    "ms",
    "mtext",
];

/// One of the MathML text integration points.
#[verifier::opaque]
pub open spec fn in_mathml_text(name: Seq<char>) -> bool {
    listed(MATHML_TEXT@, name)
}

/// Whether a name is that of one of the MathML text integration points.
pub fn is_mathml_text(name: &str) -> (r: bool)
    ensures
        r == in_mathml_text(name@),
{
    proof {
        reveal(in_mathml_text);
    }
    one_of(&MATHML_TEXT, name)
}

/// The elements that text and other strangers are kept out of.
pub const FOSTER_TARGETS: [&'static str; 5] = [
    "table",
    "tbody",
    "tfoot",
    "thead",
    "tr",
];

/// One of the elements that text and other strangers are kept out of.
#[verifier::opaque]
pub open spec fn in_foster_targets(name: Seq<char>) -> bool {
    listed(FOSTER_TARGETS@, name)
}

/// Whether a name is that of one of the elements that text and other strangers are kept out of.
pub fn is_foster_targets(name: &str) -> (r: bool)
    ensures
        r == in_foster_targets(name@),
{
    proof {
        reveal(in_foster_targets);
    }
    one_of(&FOSTER_TARGETS, name)
}

/// The elements in which table text is collected.
pub const TABLE_TEXT_PARENTS: [&'static str; 6] = [
    "table",
    "tbody",
    "template",
    "tfoot",
    "thead",
    "tr",
];

/// One of the elements in which table text is collected.
#[verifier::opaque]
pub open spec fn in_table_text_parents(name: Seq<char>) -> bool {
    listed(TABLE_TEXT_PARENTS@, name)
}

/// Whether a name is that of one of the elements in which table text is collected.
pub fn is_table_text_parents(name: &str) -> (r: bool)
    ensures
        r == in_table_text_parents(name@),
{
    proof {
        reveal(in_table_text_parents);
    }
    one_of(&TABLE_TEXT_PARENTS, name)
}

/// The elements that belong into the head wherever they are met.
pub const HEAD_CONTENT: [&'static str; 10] = [
    "base",
    "basefont",
    "bgsound",
    "link",
    "meta",
    "noframes",
    "script",
    "style",
    "template",
    "title",
];

/// One of the elements that belong into the head wherever they are met.
#[verifier::opaque]
pub open spec fn in_head_content(name: Seq<char>) -> bool {
    listed(HEAD_CONTENT@, name)
}

/// Whether a name is that of one of the elements that belong into the head wherever they are met.
pub fn is_head_content(name: &str) -> (r: bool)
    ensures
        r == in_head_content(name@),
{
    proof {
        reveal(in_head_content);
    }
    one_of(&HEAD_CONTENT, name)
}

/// The elements of the head that have no content.
pub const HEAD_VOID: [&'static str; 5] = [
    "base",
    "basefont",
    "bgsound",
    "link",
    "meta",
];

/// One of the elements of the head that have no content.
#[verifier::opaque]
pub open spec fn in_head_void(name: Seq<char>) -> bool {
    listed(HEAD_VOID@, name)
}

/// Whether a name is that of one of the elements of the head that have no content.
pub fn is_head_void(name: &str) -> (r: bool)
    ensures
        r == in_head_void(name@),
{
    proof {
        reveal(in_head_void);
    }
    one_of(&HEAD_VOID, name)
}

/// The elements that may stand in a `noscript` of the head.
pub const HEAD_NOSCRIPT_CONTENT: [&'static str; 6] = [
    "basefont",
    "bgsound",
    "link",
    "meta",
    "noframes",
    "style",
];

/// One of the elements that may stand in a `noscript` of the head.
#[verifier::opaque]
pub open spec fn in_head_noscript_content(name: Seq<char>) -> bool {
    listed(HEAD_NOSCRIPT_CONTENT@, name)
}

/// Whether a name is that of one of the elements that may stand in a `noscript` of the head.
pub fn is_head_noscript_content(name: &str) -> (r: bool)
    ensures
        r == in_head_noscript_content(name@),
{
    proof {
        reveal(in_head_noscript_content);
    }
    one_of(&HEAD_NOSCRIPT_CONTENT, name)
}

/// The headings.
pub const HEADINGS: [&'static str; 6] = [
    "h1",
    "h2",
    "h3",
    "h4",
    "h5",
    "h6",
];

/// One of the headings.
#[verifier::opaque]
pub open spec fn in_headings(name: Seq<char>) -> bool {
    listed(HEADINGS@, name)
}

/// Whether a name is that of one of the headings.
pub fn is_headings(name: &str) -> (r: bool)
    ensures
        r == in_headings(name@),
{
    proof {
        reveal(in_headings);
    }
    one_of(&HEADINGS, name)
}

/// The elements whose start tag closes an open paragraph and does nothing else.
pub const BLOCKS: [&'static str; 25] = [
    "address",
    "article",
    "aside",
    "blockquote",
    "center",
    "details",
    "dialog",
    "dir",
    "div",
    "dl",
    "fieldset",
    "figcaption",
    "figure",
    "footer",
    "header",
    "hgroup",
    "main",
    "menu",
    "nav",
    "ol",
    "p",
    "search",
    "section",
    "summary",
    "ul",
];

/// One of the elements whose start tag closes an open paragraph and does nothing else.
#[verifier::opaque]
pub open spec fn in_blocks(name: Seq<char>) -> bool {
    listed(BLOCKS@, name)
}

/// Whether a name is that of one of the elements whose start tag closes an open
/// paragraph and does nothing else.
pub fn is_blocks(name: &str) -> (r: bool)
    ensures
        r == in_blocks(name@),
{
    proof {
        reveal(in_blocks);
    }
    one_of(&BLOCKS, name)
}

/// The elements whose end tag closes the nearest one of them in scope.
pub const CLOSABLE: [&'static str; 28] = [
    "address",
    "article",
    "aside",
    "blockquote",
    "button",
    "center",
    "details",
    "dialog",
    "dir",
    "div",
    "dl",
    "fieldset",
    "figcaption",
    "figure",
    "footer",
    "header",
    "hgroup",
    "listing",
    "main",
    "menu",
    "nav",
    "ol",
    "pre",
    "search",
    "section",
    "select",
    "summary",
    "ul",
];

/// One of the elements whose end tag closes the nearest one of them in scope.
#[verifier::opaque]
pub open spec fn in_closable(name: Seq<char>) -> bool {
    listed(CLOSABLE@, name)
}

/// Whether a name is that of one of the elements whose end tag closes the
/// nearest one of them in scope.
pub fn is_closable(name: &str) -> (r: bool)
    ensures
        r == in_closable(name@),
{
    proof {
        reveal(in_closable);
    }
    one_of(&CLOSABLE, name)
}

/// The formatting elements but for `a` and `nobr`.
pub const FORMATTING: [&'static str; 12] = [
    "b",
    "big",
    "code",
    "em",
    "font",
    "i",
    "s",
    "small",
    "strike",
    "strong",
    "tt",
    "u",
];

/// One of the formatting elements but for `a` and `nobr`.
#[verifier::opaque]
pub open spec fn in_formatting(name: Seq<char>) -> bool {
    listed(FORMATTING@, name)
}

/// Whether a name is that of one of the formatting elements but for `a` and `nobr`.
pub fn is_formatting(name: &str) -> (r: bool)
    ensures
        r == in_formatting(name@),
{
    proof {
        reveal(in_formatting);
    }
    one_of(&FORMATTING, name)
}

/// The formatting elements.
pub const FORMATTING_ALL: [&'static str; 14] = [
    "a",
    "b",
    "big",
    "code",
    "em",
    "font",
    "i",
    "nobr",
    "s",
    "small",
    "strike",
    "strong",
    "tt",
    "u",
];

/// One of the formatting elements.
#[verifier::opaque]
pub open spec fn in_formatting_all(name: Seq<char>) -> bool {
    listed(FORMATTING_ALL@, name)
}

/// Whether a name is that of one of the formatting elements.
pub fn is_formatting_all(name: &str) -> (r: bool)
    ensures
        r == in_formatting_all(name@),
{
    proof {
        reveal(in_formatting_all);
    }
    one_of(&FORMATTING_ALL, name)
}

/// The elements that formatting does not reach into.
pub const MARKED: [&'static str; 3] = [
    "applet",
    "marquee",
    "object",
];

/// One of the elements that formatting does not reach into.
#[verifier::opaque]
pub open spec fn in_marked(name: Seq<char>) -> bool {
    listed(MARKED@, name)
}

/// Whether a name is that of one of the elements that formatting does not reach into.
pub fn is_marked(name: &str) -> (r: bool)
    ensures
        r == in_marked(name@),
{
    proof {
        reveal(in_marked);
    }
    one_of(&MARKED, name)
}

/// The elements without content that end a chance for a frameset.
pub const VOID: [&'static str; 6] = [
    "area",
    "br",
    "embed",
    "img",
    "keygen",
    "wbr",
];

/// One of the elements without content that end a chance for a frameset.
#[verifier::opaque]
pub open spec fn in_void(name: Seq<char>) -> bool {
    listed(VOID@, name)
}

/// Whether a name is that of one of the elements without content that end a chance for a frameset.
pub fn is_void(name: &str) -> (r: bool)
    ensures
        r == in_void(name@),
{
    proof {
        reveal(in_void);
    }
    one_of(&VOID, name)
}

/// The elements without content that do not.
pub const SILENT_VOID: [&'static str; 3] = [
    "param",
    "source",
    "track",
];

/// One of the elements without content that do not.
#[verifier::opaque]
pub open spec fn in_silent_void(name: Seq<char>) -> bool {
    listed(SILENT_VOID@, name)
}

/// Whether a name is that of one of the elements without content that do not.
pub fn is_silent_void(name: &str) -> (r: bool)
    ensures
        r == in_silent_void(name@),
{
    proof {
        reveal(in_silent_void);
    }
    one_of(&SILENT_VOID, name)
}

/// The parts of a table.
pub const TABLE_PARTS: [&'static str; 9] = [
    "caption",
    "col",
    "colgroup",
    "tbody",
    "td",
    "tfoot",
    "th",
    "thead",
    "tr",
];

/// One of the parts of a table.
#[verifier::opaque]
pub open spec fn in_table_parts(name: Seq<char>) -> bool {
    listed(TABLE_PARTS@, name)
}

/// Whether a name is that of one of the parts of a table.
pub fn is_table_parts(name: &str) -> (r: bool)
    ensures
        r == in_table_parts(name@),
{
    proof {
        reveal(in_table_parts);
    }
    one_of(&TABLE_PARTS, name)
}

/// The elements that have no place in the body on their own.
pub const MISPLACED_IN_BODY: [&'static str; 11] = [
    "caption",
    "col",
    "colgroup",
    "frame",
    "head",
    "tbody",
    "td",
    "tfoot",
    "th",
    "thead",
    "tr",
];

/// One of the elements that have no place in the body on their own.
#[verifier::opaque]
pub open spec fn in_misplaced_in_body(name: Seq<char>) -> bool {
    listed(MISPLACED_IN_BODY@, name)
}

/// Whether a name is that of one of the elements that have no place in the body on their own.
pub fn is_misplaced_in_body(name: &str) -> (r: bool)
    ensures
        r == in_misplaced_in_body(name@),
{
    proof {
        reveal(in_misplaced_in_body);
    }
    one_of(&MISPLACED_IN_BODY, name)
}

/// The sections of a table.
pub const TABLE_SECTIONS: [&'static str; 3] = [
    "tbody",
    "tfoot",
    "thead",
];

/// One of the sections of a table.
#[verifier::opaque]
pub open spec fn in_table_sections(name: Seq<char>) -> bool {
    listed(TABLE_SECTIONS@, name)
}

/// Whether a name is that of one of the sections of a table.
pub fn is_table_sections(name: &str) -> (r: bool)
    ensures
        r == in_table_sections(name@),
{
    proof {
        reveal(in_table_sections);
    }
    one_of(&TABLE_SECTIONS, name)
}

/// The end tags that a table ignores.
pub const IN_TABLE_IGNORED_ENDS: [&'static str; 11] = [
    "body",
    "caption",
    "col",
    "colgroup",
    "html",
    "tbody",
    "td",
    "tfoot",
    "th",
    "thead",
    "tr",
];

/// One of the end tags that a table ignores.
#[verifier::opaque]
pub open spec fn in_in_table_ignored_ends(name: Seq<char>) -> bool {
    listed(IN_TABLE_IGNORED_ENDS@, name)
}

/// Whether a name is that of one of the end tags that a table ignores.
pub fn is_in_table_ignored_ends(name: &str) -> (r: bool)
    ensures
        r == in_in_table_ignored_ends(name@),
{
    proof {
        reveal(in_in_table_ignored_ends);
    }
    one_of(&IN_TABLE_IGNORED_ENDS, name)
}

/// The end tags that a caption ignores.
pub const IN_CAPTION_IGNORED_ENDS: [&'static str; 10] = [
    "body",
    "col",
    "colgroup",
    "html",
    "tbody",
    "td",
    "tfoot",
    "th",
    "thead",
    "tr",
];

/// One of the end tags that a caption ignores.
#[verifier::opaque]
pub open spec fn in_in_caption_ignored_ends(name: Seq<char>) -> bool {
    listed(IN_CAPTION_IGNORED_ENDS@, name)
}

/// Whether a name is that of one of the end tags that a caption ignores.
pub fn is_in_caption_ignored_ends(name: &str) -> (r: bool)
    ensures
        r == in_in_caption_ignored_ends(name@),
{
    proof {
        reveal(in_in_caption_ignored_ends);
    }
    one_of(&IN_CAPTION_IGNORED_ENDS, name)
}

/// The end tags that a table section ignores.
pub const IN_TABLE_BODY_IGNORED_ENDS: [&'static str; 8] = [
    "body",
    "caption",
    "col",
    "colgroup",
    "html",
    "td",
    "th",
    "tr",
];

/// One of the end tags that a table section ignores.
#[verifier::opaque]
pub open spec fn in_in_table_body_ignored_ends(name: Seq<char>) -> bool {
    listed(IN_TABLE_BODY_IGNORED_ENDS@, name)
}

/// Whether a name is that of one of the end tags that a table section ignores.
pub fn is_in_table_body_ignored_ends(name: &str) -> (r: bool)
    ensures
        r == in_in_table_body_ignored_ends(name@),
{
    proof {
        reveal(in_in_table_body_ignored_ends);
    }
    one_of(&IN_TABLE_BODY_IGNORED_ENDS, name)
}

/// The end tags that a row ignores.
pub const IN_ROW_IGNORED_ENDS: [&'static str; 7] = [
    "body",
    "caption",
    "col",
    "colgroup",
    "html",
    "td",
    "th",
];

/// One of the end tags that a row ignores.
#[verifier::opaque]
pub open spec fn in_in_row_ignored_ends(name: Seq<char>) -> bool {
    listed(IN_ROW_IGNORED_ENDS@, name)
}

/// Whether a name is that of one of the end tags that a row ignores.
pub fn is_in_row_ignored_ends(name: &str) -> (r: bool)
    ensures
        r == in_in_row_ignored_ends(name@),
{
    proof {
        reveal(in_in_row_ignored_ends);
    }
    one_of(&IN_ROW_IGNORED_ENDS, name)
}

/// The end tags that a cell ignores.
pub const IN_CELL_IGNORED_ENDS: [&'static str; 5] = [
    "body",
    "caption",
    "col",
    "colgroup",
    "html",
];

/// One of the end tags that a cell ignores.
#[verifier::opaque]
pub open spec fn in_in_cell_ignored_ends(name: Seq<char>) -> bool {
    listed(IN_CELL_IGNORED_ENDS@, name)
}

/// Whether a name is that of one of the end tags that a cell ignores.
pub fn is_in_cell_ignored_ends(name: &str) -> (r: bool)
    ensures
        r == in_in_cell_ignored_ends(name@),
{
    proof {
        reveal(in_in_cell_ignored_ends);
    }
    one_of(&IN_CELL_IGNORED_ENDS, name)
}

/// The start tags that close a table section.
pub const SECTION_CLOSERS: [&'static str; 6] = [
    "caption",
    "col",
    "colgroup",
    "tbody",
    "tfoot",
    "thead",
];

/// One of the start tags that close a table section.
#[verifier::opaque]
pub open spec fn in_section_closers(name: Seq<char>) -> bool {
    listed(SECTION_CLOSERS@, name)
}

/// Whether a name is that of one of the start tags that close a table section.
pub fn is_section_closers(name: &str) -> (r: bool)
    ensures
        r == in_section_closers(name@),
{
    proof {
        reveal(in_section_closers);
    }
    one_of(&SECTION_CLOSERS, name)
}

/// The start tags that close a row.
pub const ROW_CLOSERS: [&'static str; 7] = [
    "caption",
    "col",
    "colgroup",
    "tbody",
    "tfoot",
    "thead",
    "tr",
];

/// One of the start tags that close a row.
#[verifier::opaque]
pub open spec fn in_row_closers(name: Seq<char>) -> bool {
    listed(ROW_CLOSERS@, name)
}

/// Whether a name is that of one of the start tags that close a row.
pub fn is_row_closers(name: &str) -> (r: bool)
    ensures
        r == in_row_closers(name@),
{
    proof {
        reveal(in_row_closers);
    }
    one_of(&ROW_CLOSERS, name)
}

/// The end tags that close a cell.
pub const CELL_CLOSING_ENDS: [&'static str; 5] = [
    "table",
    "tbody",
    "tfoot",
    "thead",
    "tr",
];

/// One of the end tags that close a cell.
#[verifier::opaque]
pub open spec fn in_cell_closing_ends(name: Seq<char>) -> bool {
    listed(CELL_CLOSING_ENDS@, name)
}

/// Whether a name is that of one of the end tags that close a cell.
pub fn is_cell_closing_ends(name: &str) -> (r: bool)
    ensures
        r == in_cell_closing_ends(name@),
{
    proof {
        reveal(in_cell_closing_ends);
    }
    one_of(&CELL_CLOSING_ENDS, name)
}

/// The elements that may be open at the end of the body.
pub const MAY_STAY_OPEN: [&'static str; 18] = [
    "dd",
    "dt",
    "li",
    "optgroup",
    "option",
    "p",
    "rb",
    "rp",
    "rt",
    "rtc",
    "tbody",
    "td",
    "tfoot",
    "th",
    "thead",
    "tr",
    "body",
    "html",
];

/// One of the elements that may be open at the end of the body.
#[verifier::opaque]
pub open spec fn in_may_stay_open(name: Seq<char>) -> bool {
    listed(MAY_STAY_OPEN@, name)
}

/// Whether a name is that of one of the elements that may be open at the end of the body.
pub fn is_may_stay_open(name: &str) -> (r: bool)
    ensures
        r == in_may_stay_open(name@),
{
    proof {
        reveal(in_may_stay_open);
    }
    one_of(&MAY_STAY_OPEN, name)
}

/// The start tags that end foreign content.
pub const FOREIGN_BREAKOUT: [&'static str; 44] = [
    "b",
    "big",
    "blockquote",
    "body",
    "br",
    "center",
    "code",
    "dd",
    "div",
    "dl",
    "dt",
    "em",
    "embed",
    "h1",
    "h2",
    "h3",
    "h4",
    "h5",
    "h6",
    "head",
    "hr",
    "i",
    "img",
    "li",
    "listing",
    "menu",
    "meta",
    "nobr",
    "ol",
    "p",
    "pre",
    "ruby",
    "s",
    "small",
    "span",
    "strong",
    "strike",
    "sub",
    "sup",
    "table",
    "tt",
    "u",
    "ul",
    "var",
];

/// One of the start tags that end foreign content.
#[verifier::opaque]
pub open spec fn in_foreign_breakout(name: Seq<char>) -> bool {
    listed(FOREIGN_BREAKOUT@, name)
}

/// Whether a name is that of one of the start tags that end foreign content.
pub fn is_foreign_breakout(name: &str) -> (r: bool)
    ensures
        r == in_foreign_breakout(name@),
{
    proof {
        reveal(in_foreign_breakout);
    }
    one_of(&FOREIGN_BREAKOUT, name)
}

/// The special elements that a list item can be looked for through.
pub const LIST_ITEM_STOP_EXCEPTIONS: [&'static str; 3] = [
    "address",
    "div",
    "p",
];

/// One of the special elements that a list item can be looked for through.
#[verifier::opaque]
pub open spec fn in_list_item_stop_exceptions(name: Seq<char>) -> bool {
    listed(LIST_ITEM_STOP_EXCEPTIONS@, name)
}

/// Whether a name is that of one of the special elements that a list item can
/// be looked for through.
pub fn is_list_item_stop_exceptions(name: &str) -> (r: bool)
    ensures
        r == in_list_item_stop_exceptions(name@),
{
    proof {
        reveal(in_list_item_stop_exceptions);
    }
    one_of(&LIST_ITEM_STOP_EXCEPTIONS, name)
}

/// The elements that a table context is cleared back to.
pub const TABLE_CONTEXT: [&'static str; 3] = [
    "table",
    "template",
    "html",
];

/// One of the elements that a table context is cleared back to.
#[verifier::opaque]
pub open spec fn in_table_context(name: Seq<char>) -> bool {
    listed(TABLE_CONTEXT@, name)
}

/// Whether a name is that of one of the elements that a table context is cleared back to.
pub fn is_table_context(name: &str) -> (r: bool)
    ensures
        r == in_table_context(name@),
{
    proof {
        reveal(in_table_context);
    }
    one_of(&TABLE_CONTEXT, name)
}

/// The elements that a table section context is cleared back to.
pub const TABLE_BODY_CONTEXT: [&'static str; 5] = [
    "tbody",
    "tfoot",
    "thead",
    "template",
    "html",
];

/// One of the elements that a table section context is cleared back to.
#[verifier::opaque]
pub open spec fn in_table_body_context(name: Seq<char>) -> bool {
    listed(TABLE_BODY_CONTEXT@, name)
}

/// Whether a name is that of one of the elements that a table section context is cleared back to.
pub fn is_table_body_context(name: &str) -> (r: bool)
    ensures
        r == in_table_body_context(name@),
{
    proof {
        reveal(in_table_body_context);
    }
    one_of(&TABLE_BODY_CONTEXT, name)
}

/// The elements that a row context is cleared back to.
pub const TABLE_ROW_CONTEXT: [&'static str; 3] = [
    "tr",
    "template",
    "html",
];

/// One of the elements that a row context is cleared back to.
#[verifier::opaque]
pub open spec fn in_table_row_context(name: Seq<char>) -> bool {
    listed(TABLE_ROW_CONTEXT@, name)
}

/// Whether a name is that of one of the elements that a row context is cleared back to.
pub fn is_table_row_context(name: &str) -> (r: bool)
    ensures
        r == in_table_row_context(name@),
{
    proof {
        reveal(in_table_row_context);
    }
    one_of(&TABLE_ROW_CONTEXT, name)
}

/// The cells of a row.
pub const CELLS: [&'static str; 2] = [
    "td",
    "th",
];

/// One of the cells of a row.
#[verifier::opaque]
pub open spec fn in_cells(name: Seq<char>) -> bool {
    listed(CELLS@, name)
}

/// Whether a name is that of one of the cells of a row.
pub fn is_cells(name: &str) -> (r: bool)
    ensures
        r == in_cells(name@),
{
    proof {
        reveal(in_cells);
    }
    one_of(&CELLS, name)
}

/// The parts of a table that a template can hold.
pub const TEMPLATE_TABLE_PARTS: [&'static str; 5] = [
    "caption",
    "colgroup",
    "tbody",
    "tfoot",
    "thead",
];

/// One of the parts of a table that a template can hold.
#[verifier::opaque]
pub open spec fn in_template_table_parts(name: Seq<char>) -> bool {
    listed(TEMPLATE_TABLE_PARTS@, name)
}

/// Whether a name is that of one of the parts of a table that a template can hold.
pub fn is_template_table_parts(name: &str) -> (r: bool)
    ensures
        r == in_template_table_parts(name@),
{
    proof {
        reveal(in_template_table_parts);
    }
    one_of(&TEMPLATE_TABLE_PARTS, name)
}

/// The attributes with which `font` ends foreign content.
pub const FONT_ATTRIBUTES: [&'static str; 3] = [
    "color",
    "face",
    "size",
];

/// One of the attributes with which `font` ends foreign content.
#[verifier::opaque]
pub open spec fn in_font_attributes(name: Seq<char>) -> bool {
    listed(FONT_ATTRIBUTES@, name)
}

/// Whether a name is that of one of the attributes with which `font` ends foreign content.
pub fn is_font_attributes(name: &str) -> (r: bool)
    ensures
        r == in_font_attributes(name@),
{
    proof {
        reveal(in_font_attributes);
    }
    one_of(&FONT_ATTRIBUTES, name)
}

/// The elements of the head that may stand in a table.
pub const IN_TABLE_HEAD_CONTENT: [&'static str; 3] = [
    "style",
    "script",
    "template",
];

/// One of the elements of the head that may stand in a table.
#[verifier::opaque]
pub open spec fn in_in_table_head_content(name: Seq<char>) -> bool {
    listed(IN_TABLE_HEAD_CONTENT@, name)
}

/// Whether a name is that of one of the elements of the head that may stand in a table.
pub fn is_in_table_head_content(name: &str) -> (r: bool)
    ensures
        r == in_in_table_head_content(name@),
{
    proof {
        reveal(in_in_table_head_content);
    }
    one_of(&IN_TABLE_HEAD_CONTENT, name)
}

/// The attributes of foreign elements that are in a namespace.
pub const FOREIGN_ATTRIBUTE_NAMESPACES: [(&'static str, &'static str); 11] = [
    ("xlink:actuate", XLINK_NAMESPACE),
    ("xlink:arcrole", XLINK_NAMESPACE),
    ("xlink:href", XLINK_NAMESPACE),
    ("xlink:role", XLINK_NAMESPACE),
    ("xlink:show", XLINK_NAMESPACE),
    ("xlink:title", XLINK_NAMESPACE),
    ("xlink:type", XLINK_NAMESPACE),
    ("xml:lang", XML_NAMESPACE),
    ("xml:space", XML_NAMESPACE),
    ("xmlns", XMLNS_NAMESPACE),
    ("xmlns:xlink", XMLNS_NAMESPACE),
];

/// The attributes of SVG elements with capital letters in their names.
pub const SVG_ATTRIBUTES: [(&'static str, &'static str); 58] = [
    ("attributename", "attributeName"),
    ("attributetype", "attributeType"),
    ("basefrequency", "baseFrequency"),
    ("baseprofile", "baseProfile"),
    ("calcmode", "calcMode"),
    ("clippathunits", "clipPathUnits"),
    ("diffuseconstant", "diffuseConstant"),
    ("edgemode", "edgeMode"),
    ("filterunits", "filterUnits"),
    ("glyphref", "glyphRef"),
    ("gradienttransform", "gradientTransform"),
    ("gradientunits", "gradientUnits"),
    ("kernelmatrix", "kernelMatrix"),
    ("kernelunitlength", "kernelUnitLength"),
    ("keypoints", "keyPoints"),
    ("keysplines", "keySplines"),
    ("keytimes", "keyTimes"),
    ("lengthadjust", "lengthAdjust"),
    ("limitingconeangle", "limitingConeAngle"),
    ("markerheight", "markerHeight"),
    ("markerunits", "markerUnits"),
    ("markerwidth", "markerWidth"),
    ("maskcontentunits", "maskContentUnits"),
    ("maskunits", "maskUnits"),
    ("numoctaves", "numOctaves"),
    ("pathlength", "pathLength"),
    ("patterncontentunits", "patternContentUnits"),
    ("patterntransform", "patternTransform"),
    ("patternunits", "patternUnits"),
    ("pointsatx", "pointsAtX"),
    ("pointsaty", "pointsAtY"),
    ("pointsatz", "pointsAtZ"),
    ("preservealpha", "preserveAlpha"),
    ("preserveaspectratio", "preserveAspectRatio"),
    ("primitiveunits", "primitiveUnits"),
    ("refx", "refX"),
    ("refy", "refY"),
    ("repeatcount", "repeatCount"),
    ("repeatdur", "repeatDur"),
    ("requiredextensions", "requiredExtensions"),
    ("requiredfeatures", "requiredFeatures"),
    ("specularconstant", "specularConstant"),
    ("specularexponent", "specularExponent"),
    ("spreadmethod", "spreadMethod"),
    ("startoffset", "startOffset"),
    ("stddeviation", "stdDeviation"),
    ("stitchtiles", "stitchTiles"),
    ("surfacescale", "surfaceScale"),
    ("systemlanguage", "systemLanguage"),
    ("tablevalues", "tableValues"),
    ("targetx", "targetX"),
    ("targety", "targetY"),
    ("textlength", "textLength"),
    ("viewbox", "viewBox"),
    ("viewtarget", "viewTarget"),
    ("xchannelselector", "xChannelSelector"),
    ("ychannelselector", "yChannelSelector"),
    ("zoomandpan", "zoomAndPan"),
];

/// The attributes of MathML elements with capital letters in their names.
pub const MATHML_ATTRIBUTES: [(&'static str, &'static str); 1] = [
    ("definitionurl", "definitionURL"),
];

/// The SVG elements with capital letters in their names.
pub const SVG_TAG_NAMES: [(&'static str, &'static str); 37] = [
    ("altglyph", "altGlyph"),
    ("altglyphdef", "altGlyphDef"),
    ("altglyphitem", "altGlyphItem"),
    ("animatecolor", "animateColor"),
    ("animatemotion", "animateMotion"),
    ("animatetransform", "animateTransform"),
    ("clippath", "clipPath"),
    ("feblend", "feBlend"),
    ("fecolormatrix", "feColorMatrix"),
    ("fecomponenttransfer", "feComponentTransfer"),
    ("fecomposite", "feComposite"),
    ("feconvolvematrix", "feConvolveMatrix"),
    ("fediffuselighting", "feDiffuseLighting"),
    ("fedisplacementmap", "feDisplacementMap"),
    ("fedistantlight", "feDistantLight"),
    ("fedropshadow", "feDropShadow"),
    ("feflood", "feFlood"),
    ("fefunca", "feFuncA"),
    ("fefuncb", "feFuncB"),
    ("fefuncg", "feFuncG"),
    ("fefuncr", "feFuncR"),
    ("fegaussianblur", "feGaussianBlur"),
    ("feimage", "feImage"),
    ("femerge", "feMerge"),
    ("femergenode", "feMergeNode"),
    ("femorphology", "feMorphology"),
    ("feoffset", "feOffset"),
    ("fepointlight", "fePointLight"),
    ("fespecularlighting", "feSpecularLighting"),
    ("fespotlight", "feSpotLight"),
    ("fetile", "feTile"),
    ("feturbulence", "feTurbulence"),
    ("foreignobject", "foreignObject"),
    ("glyphref", "glyphRef"),
    ("lineargradient", "linearGradient"),
    ("radialgradient", "radialGradient"),
    ("textpath", "textPath"),
];

/// What `table` gives for `key`, looked for from entry `i` on.
pub open spec fn entry_from(
    table: Seq<(&'static str, &'static str)>,
    key: Seq<char>,
    i: int,
) -> Option<Seq<char>>
    decreases table.len() - i,
{
    if i < 0 || i >= table.len() {
        None
    } else if table[i].0@ == key {
        Some(table[i].1@)
    } else {
        entry_from(table, key, i + 1)
    }
}

/// Looks `key` up in `table`.
fn look_up(table: &[(&'static str, &'static str)], key: &str) -> (r: Option<&'static str>)
    ensures
        match r {
            Some(value) => entry_from(table@, key@, 0) == Some(value@),
            None => entry_from(table@, key@, 0) is None,
        },
{
    let mut i: usize = 0;
    while i < table.len()
        invariant
            0 <= i <= table@.len(),
            entry_from(table@, key@, i as int) == entry_from(table@, key@, 0),
        decreases table@.len() - i,
    {
        if str_eq(table[i].0, key) {
            return Some(table[i].1);
        }
        i = i + 1;
    }
    None
}

/// The namespace of an attribute of a foreign element, if it is in one.
#[verifier::opaque]
pub open spec fn foreign_attribute_namespace(name: Seq<char>) -> Option<Seq<char>> {
    entry_from(FOREIGN_ATTRIBUTE_NAMESPACES@, name, 0)
}

/// The namespace of an attribute of a foreign element, if it is in one.
pub fn foreign_attribute_namespace_of(name: &str) -> (r: Option<&'static str>)
    ensures
        match r {
            Some(value) => foreign_attribute_namespace(name@) == Some(value@),
            None => foreign_attribute_namespace(name@) is None,
        },
{
    proof {
        reveal(foreign_attribute_namespace);
    }
    look_up(&FOREIGN_ATTRIBUTE_NAMESPACES, name)
}

/// How SVG spells the name of an attribute, where not in lower case.
#[verifier::opaque]
pub open spec fn svg_attribute(name: Seq<char>) -> Option<Seq<char>> {
    entry_from(SVG_ATTRIBUTES@, name, 0)
}

/// How SVG spells the name of an attribute, where not in lower case.
pub fn svg_attribute_of(name: &str) -> (r: Option<&'static str>)
    ensures
        match r {
            Some(value) => svg_attribute(name@) == Some(value@),
            None => svg_attribute(name@) is None,
        },
{
    proof {
        reveal(svg_attribute);
    }
    look_up(&SVG_ATTRIBUTES, name)
}

/// How MathML spells the name of an attribute, where not in lower case.
#[verifier::opaque]
pub open spec fn mathml_attribute(name: Seq<char>) -> Option<Seq<char>> {
    entry_from(MATHML_ATTRIBUTES@, name, 0)
}

/// How MathML spells the name of an attribute, where not in lower case.
pub fn mathml_attribute_of(name: &str) -> (r: Option<&'static str>)
    ensures
        match r {
            Some(value) => mathml_attribute(name@) == Some(value@),
            None => mathml_attribute(name@) is None,
        },
{
    proof {
        reveal(mathml_attribute);
    }
    look_up(&MATHML_ATTRIBUTES, name)
}

/// How SVG spells the name of an element, where not in lower case.
#[verifier::opaque]
pub open spec fn svg_tag(name: Seq<char>) -> Option<Seq<char>> {
    entry_from(SVG_TAG_NAMES@, name, 0)
}

/// How SVG spells the name of an element, where not in lower case.
pub fn svg_tag_of(name: &str) -> (r: Option<&'static str>)
    ensures
        match r {
            Some(value) => svg_tag(name@) == Some(value@),
            None => svg_tag(name@) is None,
        },
{
    proof {
        reveal(svg_tag);
    }
    look_up(&SVG_TAG_NAMES, name)
}

} // verus!
