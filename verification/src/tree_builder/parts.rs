//! The elements that hold a document together, and which names are theirs.
use vstd::prelude::*;

use crate::document::model::KindModel;
use crate::tree_builder::elements::{
    bounds_scope, html_name, kind_in_group, special_kind, Group, Scope,
};
use crate::tree_builder::names::{
    in_blocks, in_cell_closing_ends, in_cells, in_closable, in_default_scope, in_formatting,
    in_formatting_all, in_foster_targets, in_head_content, in_head_noscript_content, in_head_void,
    in_headings, in_implied_end_tags, in_implied_end_tags_thoroughly, in_in_cell_ignored_ends,
    in_in_table_head_content, in_in_table_ignored_ends, in_list_item_stop_exceptions, in_marked,
    in_misplaced_in_body, in_silent_void, in_special, in_table_body_context, in_table_context,
    in_table_row_context, in_table_scope, in_table_sections, in_void, BLOCKS, CELLS,
    CELL_CLOSING_ENDS, CLOSABLE, DEFAULT_SCOPE, FORMATTING, FORMATTING_ALL, FOSTER_TARGETS,
    HEADINGS, HEAD_CONTENT, HEAD_NOSCRIPT_CONTENT, HEAD_VOID, IMPLIED_END_TAGS,
    IMPLIED_END_TAGS_THOROUGHLY, IN_CELL_IGNORED_ENDS, IN_TABLE_HEAD_CONTENT, IN_TABLE_IGNORED_ENDS,
    LIST_ITEM_STOP_EXCEPTIONS, MARKED, MISPLACED_IN_BODY, SILENT_VOID, SPECIAL, TABLE_BODY_CONTEXT,
    TABLE_CONTEXT, TABLE_ROW_CONTEXT, TABLE_SCOPE, TABLE_SECTIONS, VOID,
};

verus! {

/// The part that an element plays in the structure of a document.
pub enum Part {
    Html,
    Head,
    Body,
    Frameset,
    Template,
    Table,
    Caption,
    Columns,
    Section,
    Row,
    Cell,
    Other,
}

/// The part that an HTML element of that name plays.
#[verifier::opaque]
pub open spec fn part_named(name: Seq<char>) -> Part {
    if name == "html"@ {
        Part::Html
    } else if name == "head"@ {
        Part::Head
    } else if name == "body"@ {
        Part::Body
    } else if name == "frameset"@ {
        Part::Frameset
    } else if name == "template"@ {
        Part::Template
    } else if name == "table"@ {
        Part::Table
    } else if name == "caption"@ {
        Part::Caption
    } else if name == "colgroup"@ {
        Part::Columns
    } else if name == "tbody"@ || name == "thead"@ || name == "tfoot"@ {
        Part::Section
    } else if name == "tr"@ {
        Part::Row
    } else if name == "td"@ || name == "th"@ {
        Part::Cell
    } else {
        Part::Other
    }
}

/// The part that a node plays.
pub open spec fn part_of(kind: KindModel) -> Part {
    match html_name(kind) {
        Some(name) => part_named(name),
        None => Part::Other,
    }
}

/// None of these names is one of a part.
pub proof fn lemma_implied_end_tags(name: Seq<char>)
    ensures
        in_implied_end_tags(name) ==> part_named(name) is Other,
{
    reveal(part_named);
    reveal(in_implied_end_tags);
    reveal_strlit("body");
    reveal_strlit("caption");
    reveal_strlit("colgroup");
    reveal_strlit("dd");
    reveal_strlit("dt");
    reveal_strlit("frameset");
    reveal_strlit("head");
    reveal_strlit("html");
    reveal_strlit("li");
    reveal_strlit("optgroup");
    reveal_strlit("option");
    reveal_strlit("p");
    reveal_strlit("rb");
    reveal_strlit("rp");
    reveal_strlit("rt");
    reveal_strlit("rtc");
    reveal_strlit("table");
    reveal_strlit("tbody");
    reveal_strlit("td");
    reveal_strlit("template");
    reveal_strlit("tfoot");
    reveal_strlit("th");
    reveal_strlit("thead");
    reveal_strlit("tr");
    assert("body"@.len() == 4);
    assert("caption"@.len() == 7);
    assert("colgroup"@.len() == 8);
    assert("dd"@.len() == 2);
    assert("dt"@.len() == 2);
    assert("frameset"@.len() == 8);
    assert("head"@.len() == 4);
    assert("html"@.len() == 4);
    assert("li"@.len() == 2);
    assert("optgroup"@.len() == 8);
    assert("option"@.len() == 6);
    assert("p"@.len() == 1);
    assert("rb"@.len() == 2);
    assert("rp"@.len() == 2);
    assert("rt"@.len() == 2);
    assert("rtc"@.len() == 3);
    assert("table"@.len() == 5);
    assert("tbody"@.len() == 5);
    assert("td"@.len() == 2);
    assert("template"@.len() == 8);
    assert("tfoot"@.len() == 5);
    assert("th"@.len() == 2);
    assert("thead"@.len() == 5);
    assert("tr"@.len() == 2);
    assert(IMPLIED_END_TAGS@.len() == 10);
    assert(IMPLIED_END_TAGS@[0]@ == "dd"@);
    assert(IMPLIED_END_TAGS@[1]@ == "dt"@);
    assert(IMPLIED_END_TAGS@[2]@ == "li"@);
    assert(IMPLIED_END_TAGS@[3]@ == "optgroup"@);
    assert(IMPLIED_END_TAGS@[4]@ == "option"@);
    assert(IMPLIED_END_TAGS@[5]@ == "p"@);
    assert(IMPLIED_END_TAGS@[6]@ == "rb"@);
    assert(IMPLIED_END_TAGS@[7]@ == "rp"@);
    assert(IMPLIED_END_TAGS@[8]@ == "rt"@);
    assert(IMPLIED_END_TAGS@[9]@ == "rtc"@);
    assert("dd"@[0] != "tr"@[0]);
    assert("dd"@[0] != "td"@[0]);
    assert("dd"@[0] != "th"@[0]);
    assert("dt"@[0] != "tr"@[0]);
    assert("dt"@[0] != "td"@[0]);
    assert("dt"@[0] != "th"@[0]);
    assert("li"@[0] != "tr"@[0]);
    assert("li"@[0] != "td"@[0]);
    assert("li"@[0] != "th"@[0]);
    assert("optgroup"@[0] != "frameset"@[0]);
    assert("optgroup"@[0] != "template"@[0]);
    assert("optgroup"@[0] != "colgroup"@[0]);
    assert("rb"@[0] != "tr"@[0]);
    assert("rb"@[0] != "td"@[0]);
    assert("rb"@[0] != "th"@[0]);
    assert("rp"@[0] != "tr"@[0]);
    assert("rp"@[0] != "td"@[0]);
    assert("rp"@[0] != "th"@[0]);
    assert("rt"@[0] != "tr"@[0]);
    assert("rt"@[0] != "td"@[0]);
    assert("rt"@[0] != "th"@[0]);
    assert("html"@[1] != "head"@[1]);
    assert("html"@[0] != "body"@[0]);
    assert("head"@[0] != "body"@[0]);
    assert("frameset"@[0] != "template"@[0]);
    assert("frameset"@[0] != "colgroup"@[0]);
    assert("template"@[0] != "colgroup"@[0]);
    assert("table"@[1] != "tbody"@[1]);
    assert("table"@[1] != "thead"@[1]);
    assert("table"@[1] != "tfoot"@[1]);
    assert("tbody"@[1] != "thead"@[1]);
    assert("tbody"@[1] != "tfoot"@[1]);
    assert("thead"@[1] != "tfoot"@[1]);
    assert("tr"@[1] != "td"@[1]);
    assert("tr"@[1] != "th"@[1]);
    assert("td"@[1] != "th"@[1]);
    if in_implied_end_tags(name) {
        let i = choose|i: int| 0 <= i < IMPLIED_END_TAGS@.len()
            && (#[trigger] IMPLIED_END_TAGS@[i])@ == name;
        assert(i == 0 || i == 1 || i == 2 || i == 3 || i == 4 || i == 5 || i == 6 || i == 7
            || i == 8 || i == 9);
    }
}

/// None of these names is one of a part.
pub proof fn lemma_blocks(name: Seq<char>)
    ensures
        in_blocks(name) ==> part_named(name) is Other,
{
    reveal(part_named);
    reveal(in_blocks);
    reveal_strlit("address");
    reveal_strlit("article");
    reveal_strlit("aside");
    reveal_strlit("blockquote");
    reveal_strlit("body");
    reveal_strlit("caption");
    reveal_strlit("center");
    reveal_strlit("colgroup");
    reveal_strlit("details");
    reveal_strlit("dialog");
    reveal_strlit("dir");
    reveal_strlit("div");
    reveal_strlit("dl");
    reveal_strlit("fieldset");
    reveal_strlit("figcaption");
    reveal_strlit("figure");
    reveal_strlit("footer");
    reveal_strlit("frameset");
    reveal_strlit("head");
    reveal_strlit("header");
    reveal_strlit("hgroup");
    reveal_strlit("html");
    reveal_strlit("main");
    reveal_strlit("menu");
    reveal_strlit("nav");
    reveal_strlit("ol");
    reveal_strlit("p");
    reveal_strlit("search");
    reveal_strlit("section");
    reveal_strlit("summary");
    reveal_strlit("table");
    reveal_strlit("tbody");
    reveal_strlit("td");
    reveal_strlit("template");
    reveal_strlit("tfoot");
    reveal_strlit("th");
    reveal_strlit("thead");
    reveal_strlit("tr");
    reveal_strlit("ul");
    assert("address"@.len() == 7);
    assert("article"@.len() == 7);
    assert("aside"@.len() == 5);
    assert("blockquote"@.len() == 10);
    assert("body"@.len() == 4);
    assert("caption"@.len() == 7);
    assert("center"@.len() == 6);
    assert("colgroup"@.len() == 8);
    assert("details"@.len() == 7);
    assert("dialog"@.len() == 6);
    assert("dir"@.len() == 3);
    assert("div"@.len() == 3);
    assert("dl"@.len() == 2);
    assert("fieldset"@.len() == 8);
    assert("figcaption"@.len() == 10);
    assert("figure"@.len() == 6);
    assert("footer"@.len() == 6);
    assert("frameset"@.len() == 8);
    assert("head"@.len() == 4);
    assert("header"@.len() == 6);
    assert("hgroup"@.len() == 6);
    assert("html"@.len() == 4);
    assert("main"@.len() == 4);
    assert("menu"@.len() == 4);
    assert("nav"@.len() == 3);
    assert("ol"@.len() == 2);
    assert("p"@.len() == 1);
    assert("search"@.len() == 6);
    assert("section"@.len() == 7);
    assert("summary"@.len() == 7);
    assert("table"@.len() == 5);
    assert("tbody"@.len() == 5);
    assert("td"@.len() == 2);
    assert("template"@.len() == 8);
    assert("tfoot"@.len() == 5);
    assert("th"@.len() == 2);
    assert("thead"@.len() == 5);
    assert("tr"@.len() == 2);
    assert("ul"@.len() == 2);
    assert(BLOCKS@.len() == 25);
    assert(BLOCKS@[0]@ == "address"@);
    assert(BLOCKS@[1]@ == "article"@);
    assert(BLOCKS@[2]@ == "aside"@);
    assert(BLOCKS@[3]@ == "blockquote"@);
    assert(BLOCKS@[4]@ == "center"@);
    assert(BLOCKS@[5]@ == "details"@);
    assert(BLOCKS@[6]@ == "dialog"@);
    assert(BLOCKS@[7]@ == "dir"@);
    assert(BLOCKS@[8]@ == "div"@);
    assert(BLOCKS@[9]@ == "dl"@);
    assert(BLOCKS@[10]@ == "fieldset"@);
    assert(BLOCKS@[11]@ == "figcaption"@);
    assert(BLOCKS@[12]@ == "figure"@);
    assert(BLOCKS@[13]@ == "footer"@);
    assert(BLOCKS@[14]@ == "header"@);
    assert(BLOCKS@[15]@ == "hgroup"@);
    assert(BLOCKS@[16]@ == "main"@);
    assert(BLOCKS@[17]@ == "menu"@);
    assert(BLOCKS@[18]@ == "nav"@);
    assert(BLOCKS@[19]@ == "ol"@);
    assert(BLOCKS@[20]@ == "p"@);
    assert(BLOCKS@[21]@ == "search"@);
    assert(BLOCKS@[22]@ == "section"@);
    assert(BLOCKS@[23]@ == "summary"@);
    assert(BLOCKS@[24]@ == "ul"@);
    assert("address"@[0] != "caption"@[0]);
    assert("article"@[0] != "caption"@[0]);
    assert("aside"@[0] != "table"@[0]);
    assert("aside"@[0] != "tbody"@[0]);
    assert("aside"@[0] != "thead"@[0]);
    assert("aside"@[0] != "tfoot"@[0]);
    assert("details"@[0] != "caption"@[0]);
    assert("dl"@[0] != "tr"@[0]);
    assert("dl"@[0] != "td"@[0]);
    assert("dl"@[0] != "th"@[0]);
    assert("fieldset"@[1] != "frameset"@[1]);
    assert("fieldset"@[0] != "template"@[0]);
    assert("fieldset"@[0] != "colgroup"@[0]);
    assert("main"@[0] != "html"@[0]);
    assert("main"@[0] != "head"@[0]);
    assert("main"@[0] != "body"@[0]);
    assert("menu"@[0] != "html"@[0]);
    assert("menu"@[0] != "head"@[0]);
    assert("menu"@[0] != "body"@[0]);
    assert("ol"@[0] != "tr"@[0]);
    assert("ol"@[0] != "td"@[0]);
    assert("ol"@[0] != "th"@[0]);
    assert("section"@[0] != "caption"@[0]);
    assert("summary"@[0] != "caption"@[0]);
    assert("ul"@[0] != "tr"@[0]);
    assert("ul"@[0] != "td"@[0]);
    assert("ul"@[0] != "th"@[0]);
    assert("html"@[1] != "head"@[1]);
    assert("html"@[0] != "body"@[0]);
    assert("head"@[0] != "body"@[0]);
    assert("frameset"@[0] != "template"@[0]);
    assert("frameset"@[0] != "colgroup"@[0]);
    assert("template"@[0] != "colgroup"@[0]);
    assert("table"@[1] != "tbody"@[1]);
    assert("table"@[1] != "thead"@[1]);
    assert("table"@[1] != "tfoot"@[1]);
    assert("tbody"@[1] != "thead"@[1]);
    assert("tbody"@[1] != "tfoot"@[1]);
    assert("thead"@[1] != "tfoot"@[1]);
    assert("tr"@[1] != "td"@[1]);
    assert("tr"@[1] != "th"@[1]);
    assert("td"@[1] != "th"@[1]);
    if in_blocks(name) {
        let i = choose|i: int| 0 <= i < BLOCKS@.len() && (#[trigger] BLOCKS@[i])@ == name;
        assert(i == 0 || i == 1 || i == 2 || i == 3 || i == 4 || i == 5 || i == 6 || i == 7
            || i == 8 || i == 9 || i == 10 || i == 11 || i == 12 || i == 13 || i == 14 || i == 15
            || i == 16 || i == 17 || i == 18 || i == 19 || i == 20 || i == 21 || i == 22
            || i == 23 || i == 24);
    }
}

/// None of these names is one of a part.
pub proof fn lemma_headings(name: Seq<char>)
    ensures
        in_headings(name) ==> part_named(name) is Other,
{
    reveal(part_named);
    reveal(in_headings);
    reveal_strlit("body");
    reveal_strlit("caption");
    reveal_strlit("colgroup");
    reveal_strlit("frameset");
    reveal_strlit("h1");
    reveal_strlit("h2");
    reveal_strlit("h3");
    reveal_strlit("h4");
    reveal_strlit("h5");
    reveal_strlit("h6");
    reveal_strlit("head");
    reveal_strlit("html");
    reveal_strlit("table");
    reveal_strlit("tbody");
    reveal_strlit("td");
    reveal_strlit("template");
    reveal_strlit("tfoot");
    reveal_strlit("th");
    reveal_strlit("thead");
    reveal_strlit("tr");
    assert("body"@.len() == 4);
    assert("caption"@.len() == 7);
    assert("colgroup"@.len() == 8);
    assert("frameset"@.len() == 8);
    assert("h1"@.len() == 2);
    assert("h2"@.len() == 2);
    assert("h3"@.len() == 2);
    assert("h4"@.len() == 2);
    assert("h5"@.len() == 2);
    assert("h6"@.len() == 2);
    assert("head"@.len() == 4);
    assert("html"@.len() == 4);
    assert("table"@.len() == 5);
    assert("tbody"@.len() == 5);
    assert("td"@.len() == 2);
    assert("template"@.len() == 8);
    assert("tfoot"@.len() == 5);
    assert("th"@.len() == 2);
    assert("thead"@.len() == 5);
    assert("tr"@.len() == 2);
    assert(HEADINGS@.len() == 6);
    assert(HEADINGS@[0]@ == "h1"@);
    assert(HEADINGS@[1]@ == "h2"@);
    assert(HEADINGS@[2]@ == "h3"@);
    assert(HEADINGS@[3]@ == "h4"@);
    assert(HEADINGS@[4]@ == "h5"@);
    assert(HEADINGS@[5]@ == "h6"@);
    assert("h1"@[0] != "tr"@[0]);
    assert("h1"@[0] != "td"@[0]);
    assert("h1"@[0] != "th"@[0]);
    assert("h2"@[0] != "tr"@[0]);
    assert("h2"@[0] != "td"@[0]);
    assert("h2"@[0] != "th"@[0]);
    assert("h3"@[0] != "tr"@[0]);
    assert("h3"@[0] != "td"@[0]);
    assert("h3"@[0] != "th"@[0]);
    assert("h4"@[0] != "tr"@[0]);
    assert("h4"@[0] != "td"@[0]);
    assert("h4"@[0] != "th"@[0]);
    assert("h5"@[0] != "tr"@[0]);
    assert("h5"@[0] != "td"@[0]);
    assert("h5"@[0] != "th"@[0]);
    assert("h6"@[0] != "tr"@[0]);
    assert("h6"@[0] != "td"@[0]);
    assert("h6"@[0] != "th"@[0]);
    assert("html"@[1] != "head"@[1]);
    assert("html"@[0] != "body"@[0]);
    assert("head"@[0] != "body"@[0]);
    assert("frameset"@[0] != "template"@[0]);
    assert("frameset"@[0] != "colgroup"@[0]);
    assert("template"@[0] != "colgroup"@[0]);
    assert("table"@[1] != "tbody"@[1]);
    assert("table"@[1] != "thead"@[1]);
    assert("table"@[1] != "tfoot"@[1]);
    assert("tbody"@[1] != "thead"@[1]);
    assert("tbody"@[1] != "tfoot"@[1]);
    assert("thead"@[1] != "tfoot"@[1]);
    assert("tr"@[1] != "td"@[1]);
    assert("tr"@[1] != "th"@[1]);
    assert("td"@[1] != "th"@[1]);
    if in_headings(name) {
        let i = choose|i: int| 0 <= i < HEADINGS@.len() && (#[trigger] HEADINGS@[i])@ == name;
        assert(i == 0 || i == 1 || i == 2 || i == 3 || i == 4 || i == 5);
    }
}

/// None of these names is one of a part.
pub proof fn lemma_formatting(name: Seq<char>)
    ensures
        in_formatting(name) ==> part_named(name) is Other,
{
    reveal(part_named);
    reveal(in_formatting);
    reveal_strlit("b");
    reveal_strlit("big");
    reveal_strlit("body");
    reveal_strlit("caption");
    reveal_strlit("code");
    reveal_strlit("colgroup");
    reveal_strlit("em");
    reveal_strlit("font");
    reveal_strlit("frameset");
    reveal_strlit("head");
    reveal_strlit("html");
    reveal_strlit("i");
    reveal_strlit("s");
    reveal_strlit("small");
    reveal_strlit("strike");
    reveal_strlit("strong");
    reveal_strlit("table");
    reveal_strlit("tbody");
    reveal_strlit("td");
    reveal_strlit("template");
    reveal_strlit("tfoot");
    reveal_strlit("th");
    reveal_strlit("thead");
    reveal_strlit("tr");
    reveal_strlit("tt");
    reveal_strlit("u");
    assert("b"@.len() == 1);
    assert("big"@.len() == 3);
    assert("body"@.len() == 4);
    assert("caption"@.len() == 7);
    assert("code"@.len() == 4);
    assert("colgroup"@.len() == 8);
    assert("em"@.len() == 2);
    assert("font"@.len() == 4);
    assert("frameset"@.len() == 8);
    assert("head"@.len() == 4);
    assert("html"@.len() == 4);
    assert("i"@.len() == 1);
    assert("s"@.len() == 1);
    assert("small"@.len() == 5);
    assert("strike"@.len() == 6);
    assert("strong"@.len() == 6);
    assert("table"@.len() == 5);
    assert("tbody"@.len() == 5);
    assert("td"@.len() == 2);
    assert("template"@.len() == 8);
    assert("tfoot"@.len() == 5);
    assert("th"@.len() == 2);
    assert("thead"@.len() == 5);
    assert("tr"@.len() == 2);
    assert("tt"@.len() == 2);
    assert("u"@.len() == 1);
    assert(FORMATTING@.len() == 12);
    assert(FORMATTING@[0]@ == "b"@);
    assert(FORMATTING@[1]@ == "big"@);
    assert(FORMATTING@[2]@ == "code"@);
    assert(FORMATTING@[3]@ == "em"@);
    assert(FORMATTING@[4]@ == "font"@);
    assert(FORMATTING@[5]@ == "i"@);
    assert(FORMATTING@[6]@ == "s"@);
    assert(FORMATTING@[7]@ == "small"@);
    assert(FORMATTING@[8]@ == "strike"@);
    assert(FORMATTING@[9]@ == "strong"@);
    assert(FORMATTING@[10]@ == "tt"@);
    assert(FORMATTING@[11]@ == "u"@);
    assert("code"@[0] != "html"@[0]);
    assert("code"@[0] != "head"@[0]);
    assert("code"@[0] != "body"@[0]);
    assert("em"@[0] != "tr"@[0]);
    assert("em"@[0] != "td"@[0]);
    assert("em"@[0] != "th"@[0]);
    assert("font"@[0] != "html"@[0]);
    assert("font"@[0] != "head"@[0]);
    assert("font"@[0] != "body"@[0]);
    assert("small"@[0] != "table"@[0]);
    assert("small"@[0] != "tbody"@[0]);
    assert("small"@[0] != "thead"@[0]);
    assert("small"@[0] != "tfoot"@[0]);
    assert("tt"@[1] != "tr"@[1]);
    assert("tt"@[1] != "td"@[1]);
    assert("tt"@[1] != "th"@[1]);
    assert("html"@[1] != "head"@[1]);
    assert("html"@[0] != "body"@[0]);
    assert("head"@[0] != "body"@[0]);
    assert("frameset"@[0] != "template"@[0]);
    assert("frameset"@[0] != "colgroup"@[0]);
    assert("template"@[0] != "colgroup"@[0]);
    assert("table"@[1] != "tbody"@[1]);
    assert("table"@[1] != "thead"@[1]);
    assert("table"@[1] != "tfoot"@[1]);
    assert("tbody"@[1] != "thead"@[1]);
    assert("tbody"@[1] != "tfoot"@[1]);
    assert("thead"@[1] != "tfoot"@[1]);
    assert("tr"@[1] != "td"@[1]);
    assert("tr"@[1] != "th"@[1]);
    assert("td"@[1] != "th"@[1]);
    if in_formatting(name) {
        let i = choose|i: int| 0 <= i < FORMATTING@.len() && (#[trigger] FORMATTING@[i])@ == name;
        assert(i == 0 || i == 1 || i == 2 || i == 3 || i == 4 || i == 5 || i == 6 || i == 7
            || i == 8 || i == 9 || i == 10 || i == 11);
    }
}

/// None of these names is one of a part.
pub proof fn lemma_formatting_all(name: Seq<char>)
    ensures
        in_formatting_all(name) ==> part_named(name) is Other,
{
    reveal(part_named);
    reveal(in_formatting_all);
    reveal_strlit("a");
    reveal_strlit("b");
    reveal_strlit("big");
    reveal_strlit("body");
    reveal_strlit("caption");
    reveal_strlit("code");
    reveal_strlit("colgroup");
    reveal_strlit("em");
    reveal_strlit("font");
    reveal_strlit("frameset");
    reveal_strlit("head");
    reveal_strlit("html");
    reveal_strlit("i");
    reveal_strlit("nobr");
    reveal_strlit("s");
    reveal_strlit("small");
    reveal_strlit("strike");
    reveal_strlit("strong");
    reveal_strlit("table");
    reveal_strlit("tbody");
    reveal_strlit("td");
    reveal_strlit("template");
    reveal_strlit("tfoot");
    reveal_strlit("th");
    reveal_strlit("thead");
    reveal_strlit("tr");
    reveal_strlit("tt");
    reveal_strlit("u");
    assert("a"@.len() == 1);
    assert("b"@.len() == 1);
    assert("big"@.len() == 3);
    assert("body"@.len() == 4);
    assert("caption"@.len() == 7);
    assert("code"@.len() == 4);
    assert("colgroup"@.len() == 8);
    assert("em"@.len() == 2);
    assert("font"@.len() == 4);
    assert("frameset"@.len() == 8);
    assert("head"@.len() == 4);
    assert("html"@.len() == 4);
    assert("i"@.len() == 1);
    assert("nobr"@.len() == 4);
    assert("s"@.len() == 1);
    assert("small"@.len() == 5);
    assert("strike"@.len() == 6);
    assert("strong"@.len() == 6);
    assert("table"@.len() == 5);
    assert("tbody"@.len() == 5);
    assert("td"@.len() == 2);
    assert("template"@.len() == 8);
    assert("tfoot"@.len() == 5);
    assert("th"@.len() == 2);
    assert("thead"@.len() == 5);
    assert("tr"@.len() == 2);
    assert("tt"@.len() == 2);
    assert("u"@.len() == 1);
    assert(FORMATTING_ALL@.len() == 14);
    assert(FORMATTING_ALL@[0]@ == "a"@);
    assert(FORMATTING_ALL@[1]@ == "b"@);
    assert(FORMATTING_ALL@[2]@ == "big"@);
    assert(FORMATTING_ALL@[3]@ == "code"@);
    assert(FORMATTING_ALL@[4]@ == "em"@);
    assert(FORMATTING_ALL@[5]@ == "font"@);
    assert(FORMATTING_ALL@[6]@ == "i"@);
    assert(FORMATTING_ALL@[7]@ == "nobr"@);
    assert(FORMATTING_ALL@[8]@ == "s"@);
    assert(FORMATTING_ALL@[9]@ == "small"@);
    assert(FORMATTING_ALL@[10]@ == "strike"@);
    assert(FORMATTING_ALL@[11]@ == "strong"@);
    assert(FORMATTING_ALL@[12]@ == "tt"@);
    assert(FORMATTING_ALL@[13]@ == "u"@);
    assert("code"@[0] != "html"@[0]);
    assert("code"@[0] != "head"@[0]);
    assert("code"@[0] != "body"@[0]);
    assert("em"@[0] != "tr"@[0]);
    assert("em"@[0] != "td"@[0]);
    assert("em"@[0] != "th"@[0]);
    assert("font"@[0] != "html"@[0]);
    assert("font"@[0] != "head"@[0]);
    assert("font"@[0] != "body"@[0]);
    assert("nobr"@[0] != "html"@[0]);
    assert("nobr"@[0] != "head"@[0]);
    assert("nobr"@[0] != "body"@[0]);
    assert("small"@[0] != "table"@[0]);
    assert("small"@[0] != "tbody"@[0]);
    assert("small"@[0] != "thead"@[0]);
    assert("small"@[0] != "tfoot"@[0]);
    assert("tt"@[1] != "tr"@[1]);
    assert("tt"@[1] != "td"@[1]);
    assert("tt"@[1] != "th"@[1]);
    assert("html"@[1] != "head"@[1]);
    assert("html"@[0] != "body"@[0]);
    assert("head"@[0] != "body"@[0]);
    assert("frameset"@[0] != "template"@[0]);
    assert("frameset"@[0] != "colgroup"@[0]);
    assert("template"@[0] != "colgroup"@[0]);
    assert("table"@[1] != "tbody"@[1]);
    assert("table"@[1] != "thead"@[1]);
    assert("table"@[1] != "tfoot"@[1]);
    assert("tbody"@[1] != "thead"@[1]);
    assert("tbody"@[1] != "tfoot"@[1]);
    assert("thead"@[1] != "tfoot"@[1]);
    assert("tr"@[1] != "td"@[1]);
    assert("tr"@[1] != "th"@[1]);
    assert("td"@[1] != "th"@[1]);
    if in_formatting_all(name) {
        let i = choose|i: int| 0 <= i < FORMATTING_ALL@.len()
            && (#[trigger] FORMATTING_ALL@[i])@ == name;
        assert(i == 0 || i == 1 || i == 2 || i == 3 || i == 4 || i == 5 || i == 6 || i == 7
            || i == 8 || i == 9 || i == 10 || i == 11 || i == 12 || i == 13);
    }
}

/// None of these names is one of a part.
pub proof fn lemma_marked(name: Seq<char>)
    ensures
        in_marked(name) ==> part_named(name) is Other,
{
    reveal(part_named);
    reveal(in_marked);
    reveal_strlit("applet");
    reveal_strlit("body");
    reveal_strlit("caption");
    reveal_strlit("colgroup");
    reveal_strlit("frameset");
    reveal_strlit("head");
    reveal_strlit("html");
    reveal_strlit("marquee");
    reveal_strlit("object");
    reveal_strlit("table");
    reveal_strlit("tbody");
    reveal_strlit("td");
    reveal_strlit("template");
    reveal_strlit("tfoot");
    reveal_strlit("th");
    reveal_strlit("thead");
    reveal_strlit("tr");
    assert("applet"@.len() == 6);
    assert("body"@.len() == 4);
    assert("caption"@.len() == 7);
    assert("colgroup"@.len() == 8);
    assert("frameset"@.len() == 8);
    assert("head"@.len() == 4);
    assert("html"@.len() == 4);
    assert("marquee"@.len() == 7);
    assert("object"@.len() == 6);
    assert("table"@.len() == 5);
    assert("tbody"@.len() == 5);
    assert("td"@.len() == 2);
    assert("template"@.len() == 8);
    assert("tfoot"@.len() == 5);
    assert("th"@.len() == 2);
    assert("thead"@.len() == 5);
    assert("tr"@.len() == 2);
    assert(MARKED@.len() == 3);
    assert(MARKED@[0]@ == "applet"@);
    assert(MARKED@[1]@ == "marquee"@);
    assert(MARKED@[2]@ == "object"@);
    assert("marquee"@[0] != "caption"@[0]);
    assert("html"@[1] != "head"@[1]);
    assert("html"@[0] != "body"@[0]);
    assert("head"@[0] != "body"@[0]);
    assert("frameset"@[0] != "template"@[0]);
    assert("frameset"@[0] != "colgroup"@[0]);
    assert("template"@[0] != "colgroup"@[0]);
    assert("table"@[1] != "tbody"@[1]);
    assert("table"@[1] != "thead"@[1]);
    assert("table"@[1] != "tfoot"@[1]);
    assert("tbody"@[1] != "thead"@[1]);
    assert("tbody"@[1] != "tfoot"@[1]);
    assert("thead"@[1] != "tfoot"@[1]);
    assert("tr"@[1] != "td"@[1]);
    assert("tr"@[1] != "th"@[1]);
    assert("td"@[1] != "th"@[1]);
    if in_marked(name) {
        let i = choose|i: int| 0 <= i < MARKED@.len() && (#[trigger] MARKED@[i])@ == name;
        assert(i == 0 || i == 1 || i == 2);
    }
}

/// None of these names is one of a part.
pub proof fn lemma_void(name: Seq<char>)
    ensures
        in_void(name) ==> part_named(name) is Other,
{
    reveal(part_named);
    reveal(in_void);
    reveal_strlit("area");
    reveal_strlit("body");
    reveal_strlit("br");
    reveal_strlit("caption");
    reveal_strlit("colgroup");
    reveal_strlit("embed");
    reveal_strlit("frameset");
    reveal_strlit("head");
    reveal_strlit("html");
    reveal_strlit("img");
    reveal_strlit("keygen");
    reveal_strlit("table");
    reveal_strlit("tbody");
    reveal_strlit("td");
    reveal_strlit("template");
    reveal_strlit("tfoot");
    reveal_strlit("th");
    reveal_strlit("thead");
    reveal_strlit("tr");
    reveal_strlit("wbr");
    assert("area"@.len() == 4);
    assert("body"@.len() == 4);
    assert("br"@.len() == 2);
    assert("caption"@.len() == 7);
    assert("colgroup"@.len() == 8);
    assert("embed"@.len() == 5);
    assert("frameset"@.len() == 8);
    assert("head"@.len() == 4);
    assert("html"@.len() == 4);
    assert("img"@.len() == 3);
    assert("keygen"@.len() == 6);
    assert("table"@.len() == 5);
    assert("tbody"@.len() == 5);
    assert("td"@.len() == 2);
    assert("template"@.len() == 8);
    assert("tfoot"@.len() == 5);
    assert("th"@.len() == 2);
    assert("thead"@.len() == 5);
    assert("tr"@.len() == 2);
    assert("wbr"@.len() == 3);
    assert(VOID@.len() == 6);
    assert(VOID@[0]@ == "area"@);
    assert(VOID@[1]@ == "br"@);
    assert(VOID@[2]@ == "embed"@);
    assert(VOID@[3]@ == "img"@);
    assert(VOID@[4]@ == "keygen"@);
    assert(VOID@[5]@ == "wbr"@);
    assert("area"@[0] != "html"@[0]);
    assert("area"@[0] != "head"@[0]);
    assert("area"@[0] != "body"@[0]);
    assert("br"@[0] != "tr"@[0]);
    assert("br"@[0] != "td"@[0]);
    assert("br"@[0] != "th"@[0]);
    assert("embed"@[0] != "table"@[0]);
    assert("embed"@[0] != "tbody"@[0]);
    assert("embed"@[0] != "thead"@[0]);
    assert("embed"@[0] != "tfoot"@[0]);
    assert("html"@[1] != "head"@[1]);
    assert("html"@[0] != "body"@[0]);
    assert("head"@[0] != "body"@[0]);
    assert("frameset"@[0] != "template"@[0]);
    assert("frameset"@[0] != "colgroup"@[0]);
    assert("template"@[0] != "colgroup"@[0]);
    assert("table"@[1] != "tbody"@[1]);
    assert("table"@[1] != "thead"@[1]);
    assert("table"@[1] != "tfoot"@[1]);
    assert("tbody"@[1] != "thead"@[1]);
    assert("tbody"@[1] != "tfoot"@[1]);
    assert("thead"@[1] != "tfoot"@[1]);
    assert("tr"@[1] != "td"@[1]);
    assert("tr"@[1] != "th"@[1]);
    assert("td"@[1] != "th"@[1]);
    if in_void(name) {
        let i = choose|i: int| 0 <= i < VOID@.len() && (#[trigger] VOID@[i])@ == name;
        assert(i == 0 || i == 1 || i == 2 || i == 3 || i == 4 || i == 5);
    }
}

/// None of these names is one of a part.
pub proof fn lemma_silent_void(name: Seq<char>)
    ensures
        in_silent_void(name) ==> part_named(name) is Other,
{
    reveal(part_named);
    reveal(in_silent_void);
    reveal_strlit("body");
    reveal_strlit("caption");
    reveal_strlit("colgroup");
    reveal_strlit("frameset");
    reveal_strlit("head");
    reveal_strlit("html");
    reveal_strlit("param");
    reveal_strlit("source");
    reveal_strlit("table");
    reveal_strlit("tbody");
    reveal_strlit("td");
    reveal_strlit("template");
    reveal_strlit("tfoot");
    reveal_strlit("th");
    reveal_strlit("thead");
    reveal_strlit("tr");
    reveal_strlit("track");
    assert("body"@.len() == 4);
    assert("caption"@.len() == 7);
    assert("colgroup"@.len() == 8);
    assert("frameset"@.len() == 8);
    assert("head"@.len() == 4);
    assert("html"@.len() == 4);
    assert("param"@.len() == 5);
    assert("source"@.len() == 6);
    assert("table"@.len() == 5);
    assert("tbody"@.len() == 5);
    assert("td"@.len() == 2);
    assert("template"@.len() == 8);
    assert("tfoot"@.len() == 5);
    assert("th"@.len() == 2);
    assert("thead"@.len() == 5);
    assert("tr"@.len() == 2);
    assert("track"@.len() == 5);
    assert(SILENT_VOID@.len() == 3);
    assert(SILENT_VOID@[0]@ == "param"@);
    assert(SILENT_VOID@[1]@ == "source"@);
    assert(SILENT_VOID@[2]@ == "track"@);
    assert("param"@[0] != "table"@[0]);
    assert("param"@[0] != "tbody"@[0]);
    assert("param"@[0] != "thead"@[0]);
    assert("param"@[0] != "tfoot"@[0]);
    assert("track"@[1] != "table"@[1]);
    assert("track"@[1] != "tbody"@[1]);
    assert("track"@[1] != "thead"@[1]);
    assert("track"@[1] != "tfoot"@[1]);
    assert("html"@[1] != "head"@[1]);
    assert("html"@[0] != "body"@[0]);
    assert("head"@[0] != "body"@[0]);
    assert("frameset"@[0] != "template"@[0]);
    assert("frameset"@[0] != "colgroup"@[0]);
    assert("template"@[0] != "colgroup"@[0]);
    assert("table"@[1] != "tbody"@[1]);
    assert("table"@[1] != "thead"@[1]);
    assert("table"@[1] != "tfoot"@[1]);
    assert("tbody"@[1] != "thead"@[1]);
    assert("tbody"@[1] != "tfoot"@[1]);
    assert("thead"@[1] != "tfoot"@[1]);
    assert("tr"@[1] != "td"@[1]);
    assert("tr"@[1] != "th"@[1]);
    assert("td"@[1] != "th"@[1]);
    if in_silent_void(name) {
        let i = choose|i: int| 0 <= i < SILENT_VOID@.len() && (#[trigger] SILENT_VOID@[i])@ == name;
        assert(i == 0 || i == 1 || i == 2);
    }
}

/// None of these names is one of a part.
pub proof fn lemma_closable(name: Seq<char>)
    ensures
        in_closable(name) ==> part_named(name) is Other,
{
    reveal(part_named);
    reveal(in_closable);
    reveal_strlit("address");
    reveal_strlit("article");
    reveal_strlit("aside");
    reveal_strlit("blockquote");
    reveal_strlit("body");
    reveal_strlit("button");
    reveal_strlit("caption");
    reveal_strlit("center");
    reveal_strlit("colgroup");
    reveal_strlit("details");
    reveal_strlit("dialog");
    reveal_strlit("dir");
    reveal_strlit("div");
    reveal_strlit("dl");
    reveal_strlit("fieldset");
    reveal_strlit("figcaption");
    reveal_strlit("figure");
    reveal_strlit("footer");
    reveal_strlit("frameset");
    reveal_strlit("head");
    reveal_strlit("header");
    reveal_strlit("hgroup");
    reveal_strlit("html");
    reveal_strlit("listing");
    reveal_strlit("main");
    reveal_strlit("menu");
    reveal_strlit("nav");
    reveal_strlit("ol");
    reveal_strlit("pre");
    reveal_strlit("search");
    reveal_strlit("section");
    reveal_strlit("select");
    reveal_strlit("summary");
    reveal_strlit("table");
    reveal_strlit("tbody");
    reveal_strlit("td");
    reveal_strlit("template");
    reveal_strlit("tfoot");
    reveal_strlit("th");
    reveal_strlit("thead");
    reveal_strlit("tr");
    reveal_strlit("ul");
    assert("address"@.len() == 7);
    assert("article"@.len() == 7);
    assert("aside"@.len() == 5);
    assert("blockquote"@.len() == 10);
    assert("body"@.len() == 4);
    assert("button"@.len() == 6);
    assert("caption"@.len() == 7);
    assert("center"@.len() == 6);
    assert("colgroup"@.len() == 8);
    assert("details"@.len() == 7);
    assert("dialog"@.len() == 6);
    assert("dir"@.len() == 3);
    assert("div"@.len() == 3);
    assert("dl"@.len() == 2);
    assert("fieldset"@.len() == 8);
    assert("figcaption"@.len() == 10);
    assert("figure"@.len() == 6);
    assert("footer"@.len() == 6);
    assert("frameset"@.len() == 8);
    assert("head"@.len() == 4);
    assert("header"@.len() == 6);
    assert("hgroup"@.len() == 6);
    assert("html"@.len() == 4);
    assert("listing"@.len() == 7);
    assert("main"@.len() == 4);
    assert("menu"@.len() == 4);
    assert("nav"@.len() == 3);
    assert("ol"@.len() == 2);
    assert("pre"@.len() == 3);
    assert("search"@.len() == 6);
    assert("section"@.len() == 7);
    assert("select"@.len() == 6);
    assert("summary"@.len() == 7);
    assert("table"@.len() == 5);
    assert("tbody"@.len() == 5);
    assert("td"@.len() == 2);
    assert("template"@.len() == 8);
    assert("tfoot"@.len() == 5);
    assert("th"@.len() == 2);
    assert("thead"@.len() == 5);
    assert("tr"@.len() == 2);
    assert("ul"@.len() == 2);
    assert(CLOSABLE@.len() == 28);
    assert(CLOSABLE@[0]@ == "address"@);
    assert(CLOSABLE@[1]@ == "article"@);
    assert(CLOSABLE@[2]@ == "aside"@);
    assert(CLOSABLE@[3]@ == "blockquote"@);
    assert(CLOSABLE@[4]@ == "button"@);
    assert(CLOSABLE@[5]@ == "center"@);
    assert(CLOSABLE@[6]@ == "details"@);
    assert(CLOSABLE@[7]@ == "dialog"@);
    assert(CLOSABLE@[8]@ == "dir"@);
    assert(CLOSABLE@[9]@ == "div"@);
    assert(CLOSABLE@[10]@ == "dl"@);
    assert(CLOSABLE@[11]@ == "fieldset"@);
    assert(CLOSABLE@[12]@ == "figcaption"@);
    assert(CLOSABLE@[13]@ == "figure"@);
    assert(CLOSABLE@[14]@ == "footer"@);
    assert(CLOSABLE@[15]@ == "header"@);
    assert(CLOSABLE@[16]@ == "hgroup"@);
    assert(CLOSABLE@[17]@ == "listing"@);
    assert(CLOSABLE@[18]@ == "main"@);
    assert(CLOSABLE@[19]@ == "menu"@);
    assert(CLOSABLE@[20]@ == "nav"@);
    assert(CLOSABLE@[21]@ == "ol"@);
    assert(CLOSABLE@[22]@ == "pre"@);
    assert(CLOSABLE@[23]@ == "search"@);
    assert(CLOSABLE@[24]@ == "section"@);
    assert(CLOSABLE@[25]@ == "select"@);
    assert(CLOSABLE@[26]@ == "summary"@);
    assert(CLOSABLE@[27]@ == "ul"@);
    assert("address"@[0] != "caption"@[0]);
    assert("article"@[0] != "caption"@[0]);
    assert("aside"@[0] != "table"@[0]);
    assert("aside"@[0] != "tbody"@[0]);
    assert("aside"@[0] != "thead"@[0]);
    assert("aside"@[0] != "tfoot"@[0]);
    assert("details"@[0] != "caption"@[0]);
    assert("dl"@[0] != "tr"@[0]);
    assert("dl"@[0] != "td"@[0]);
    assert("dl"@[0] != "th"@[0]);
    assert("fieldset"@[1] != "frameset"@[1]);
    assert("fieldset"@[0] != "template"@[0]);
    assert("fieldset"@[0] != "colgroup"@[0]);
    assert("listing"@[0] != "caption"@[0]);
    assert("main"@[0] != "html"@[0]);
    assert("main"@[0] != "head"@[0]);
    assert("main"@[0] != "body"@[0]);
    assert("menu"@[0] != "html"@[0]);
    assert("menu"@[0] != "head"@[0]);
    assert("menu"@[0] != "body"@[0]);
    assert("ol"@[0] != "tr"@[0]);
    assert("ol"@[0] != "td"@[0]);
    assert("ol"@[0] != "th"@[0]);
    assert("section"@[0] != "caption"@[0]);
    assert("summary"@[0] != "caption"@[0]);
    assert("ul"@[0] != "tr"@[0]);
    assert("ul"@[0] != "td"@[0]);
    assert("ul"@[0] != "th"@[0]);
    assert("html"@[1] != "head"@[1]);
    assert("html"@[0] != "body"@[0]);
    assert("head"@[0] != "body"@[0]);
    assert("frameset"@[0] != "template"@[0]);
    assert("frameset"@[0] != "colgroup"@[0]);
    assert("template"@[0] != "colgroup"@[0]);
    assert("table"@[1] != "tbody"@[1]);
    assert("table"@[1] != "thead"@[1]);
    assert("table"@[1] != "tfoot"@[1]);
    assert("tbody"@[1] != "thead"@[1]);
    assert("tbody"@[1] != "tfoot"@[1]);
    assert("thead"@[1] != "tfoot"@[1]);
    assert("tr"@[1] != "td"@[1]);
    assert("tr"@[1] != "th"@[1]);
    assert("td"@[1] != "th"@[1]);
    if in_closable(name) {
        let i = choose|i: int| 0 <= i < CLOSABLE@.len() && (#[trigger] CLOSABLE@[i])@ == name;
        assert(i == 0 || i == 1 || i == 2 || i == 3 || i == 4 || i == 5 || i == 6 || i == 7
            || i == 8 || i == 9 || i == 10 || i == 11 || i == 12 || i == 13 || i == 14 || i == 15
            || i == 16 || i == 17 || i == 18 || i == 19 || i == 20 || i == 21 || i == 22
            || i == 23 || i == 24 || i == 25 || i == 26 || i == 27);
    }
}

/// None of these names is one of a part.
pub proof fn lemma_head_void(name: Seq<char>)
    ensures
        in_head_void(name) ==> part_named(name) is Other,
{
    reveal(part_named);
    reveal(in_head_void);
    reveal_strlit("base");
    reveal_strlit("basefont");
    reveal_strlit("bgsound");
    reveal_strlit("body");
    reveal_strlit("caption");
    reveal_strlit("colgroup");
    reveal_strlit("frameset");
    reveal_strlit("head");
    reveal_strlit("html");
    reveal_strlit("link");
    reveal_strlit("meta");
    reveal_strlit("table");
    reveal_strlit("tbody");
    reveal_strlit("td");
    reveal_strlit("template");
    reveal_strlit("tfoot");
    reveal_strlit("th");
    reveal_strlit("thead");
    reveal_strlit("tr");
    assert("base"@.len() == 4);
    assert("basefont"@.len() == 8);
    assert("bgsound"@.len() == 7);
    assert("body"@.len() == 4);
    assert("caption"@.len() == 7);
    assert("colgroup"@.len() == 8);
    assert("frameset"@.len() == 8);
    assert("head"@.len() == 4);
    assert("html"@.len() == 4);
    assert("link"@.len() == 4);
    assert("meta"@.len() == 4);
    assert("table"@.len() == 5);
    assert("tbody"@.len() == 5);
    assert("td"@.len() == 2);
    assert("template"@.len() == 8);
    assert("tfoot"@.len() == 5);
    assert("th"@.len() == 2);
    assert("thead"@.len() == 5);
    assert("tr"@.len() == 2);
    assert(HEAD_VOID@.len() == 5);
    assert(HEAD_VOID@[0]@ == "base"@);
    assert(HEAD_VOID@[1]@ == "basefont"@);
    assert(HEAD_VOID@[2]@ == "bgsound"@);
    assert(HEAD_VOID@[3]@ == "link"@);
    assert(HEAD_VOID@[4]@ == "meta"@);
    assert("base"@[0] != "html"@[0]);
    assert("base"@[0] != "head"@[0]);
    assert("base"@[1] != "body"@[1]);
    assert("basefont"@[0] != "frameset"@[0]);
    assert("basefont"@[0] != "template"@[0]);
    assert("basefont"@[0] != "colgroup"@[0]);
    assert("bgsound"@[0] != "caption"@[0]);
    assert("link"@[0] != "html"@[0]);
    assert("link"@[0] != "head"@[0]);
    assert("link"@[0] != "body"@[0]);
    assert("meta"@[0] != "html"@[0]);
    assert("meta"@[0] != "head"@[0]);
    assert("meta"@[0] != "body"@[0]);
    assert("html"@[1] != "head"@[1]);
    assert("html"@[0] != "body"@[0]);
    assert("head"@[0] != "body"@[0]);
    assert("frameset"@[0] != "template"@[0]);
    assert("frameset"@[0] != "colgroup"@[0]);
    assert("template"@[0] != "colgroup"@[0]);
    assert("table"@[1] != "tbody"@[1]);
    assert("table"@[1] != "thead"@[1]);
    assert("table"@[1] != "tfoot"@[1]);
    assert("tbody"@[1] != "thead"@[1]);
    assert("tbody"@[1] != "tfoot"@[1]);
    assert("thead"@[1] != "tfoot"@[1]);
    assert("tr"@[1] != "td"@[1]);
    assert("tr"@[1] != "th"@[1]);
    assert("td"@[1] != "th"@[1]);
    if in_head_void(name) {
        let i = choose|i: int| 0 <= i < HEAD_VOID@.len() && (#[trigger] HEAD_VOID@[i])@ == name;
        assert(i == 0 || i == 1 || i == 2 || i == 3 || i == 4);
    }
}

/// None of these names is one of a part.
pub proof fn lemma_list_item_stop_exceptions(name: Seq<char>)
    ensures
        in_list_item_stop_exceptions(name) ==> part_named(name) is Other,
{
    reveal(part_named);
    reveal(in_list_item_stop_exceptions);
    reveal_strlit("address");
    reveal_strlit("body");
    reveal_strlit("caption");
    reveal_strlit("colgroup");
    reveal_strlit("div");
    reveal_strlit("frameset");
    reveal_strlit("head");
    reveal_strlit("html");
    reveal_strlit("p");
    reveal_strlit("table");
    reveal_strlit("tbody");
    reveal_strlit("td");
    reveal_strlit("template");
    reveal_strlit("tfoot");
    reveal_strlit("th");
    reveal_strlit("thead");
    reveal_strlit("tr");
    assert("address"@.len() == 7);
    assert("body"@.len() == 4);
    assert("caption"@.len() == 7);
    assert("colgroup"@.len() == 8);
    assert("div"@.len() == 3);
    assert("frameset"@.len() == 8);
    assert("head"@.len() == 4);
    assert("html"@.len() == 4);
    assert("p"@.len() == 1);
    assert("table"@.len() == 5);
    assert("tbody"@.len() == 5);
    assert("td"@.len() == 2);
    assert("template"@.len() == 8);
    assert("tfoot"@.len() == 5);
    assert("th"@.len() == 2);
    assert("thead"@.len() == 5);
    assert("tr"@.len() == 2);
    assert(LIST_ITEM_STOP_EXCEPTIONS@.len() == 3);
    assert(LIST_ITEM_STOP_EXCEPTIONS@[0]@ == "address"@);
    assert(LIST_ITEM_STOP_EXCEPTIONS@[1]@ == "div"@);
    assert(LIST_ITEM_STOP_EXCEPTIONS@[2]@ == "p"@);
    assert("address"@[0] != "caption"@[0]);
    assert("html"@[1] != "head"@[1]);
    assert("html"@[0] != "body"@[0]);
    assert("head"@[0] != "body"@[0]);
    assert("frameset"@[0] != "template"@[0]);
    assert("frameset"@[0] != "colgroup"@[0]);
    assert("template"@[0] != "colgroup"@[0]);
    assert("table"@[1] != "tbody"@[1]);
    assert("table"@[1] != "thead"@[1]);
    assert("table"@[1] != "tfoot"@[1]);
    assert("tbody"@[1] != "thead"@[1]);
    assert("tbody"@[1] != "tfoot"@[1]);
    assert("thead"@[1] != "tfoot"@[1]);
    assert("tr"@[1] != "td"@[1]);
    assert("tr"@[1] != "th"@[1]);
    assert("td"@[1] != "th"@[1]);
    if in_list_item_stop_exceptions(name) {
        let i = choose|i: int| 0 <= i < LIST_ITEM_STOP_EXCEPTIONS@.len()
            && (#[trigger] LIST_ITEM_STOP_EXCEPTIONS@[i])@ == name;
        assert(i == 0 || i == 1 || i == 2);
    }
}

/// The end tags of these elements are not implied.
pub proof fn lemma_closable_not_implied(name: Seq<char>)
    requires
        in_closable(name),
    ensures
        !in_implied_end_tags(name),
{
    reveal(in_closable);
    reveal(in_implied_end_tags);
    reveal_strlit("address");
    reveal_strlit("article");
    reveal_strlit("aside");
    reveal_strlit("blockquote");
    reveal_strlit("button");
    reveal_strlit("center");
    reveal_strlit("dd");
    reveal_strlit("details");
    reveal_strlit("dialog");
    reveal_strlit("dir");
    reveal_strlit("div");
    reveal_strlit("dl");
    reveal_strlit("dt");
    reveal_strlit("fieldset");
    reveal_strlit("figcaption");
    reveal_strlit("figure");
    reveal_strlit("footer");
    reveal_strlit("header");
    reveal_strlit("hgroup");
    reveal_strlit("li");
    reveal_strlit("listing");
    reveal_strlit("main");
    reveal_strlit("menu");
    reveal_strlit("nav");
    reveal_strlit("ol");
    reveal_strlit("optgroup");
    reveal_strlit("option");
    reveal_strlit("p");
    reveal_strlit("pre");
    reveal_strlit("rb");
    reveal_strlit("rp");
    reveal_strlit("rt");
    reveal_strlit("rtc");
    reveal_strlit("search");
    reveal_strlit("section");
    reveal_strlit("select");
    reveal_strlit("summary");
    reveal_strlit("ul");
    assert("address"@.len() == 7);
    assert("article"@.len() == 7);
    assert("aside"@.len() == 5);
    assert("blockquote"@.len() == 10);
    assert("button"@.len() == 6);
    assert("center"@.len() == 6);
    assert("dd"@.len() == 2);
    assert("details"@.len() == 7);
    assert("dialog"@.len() == 6);
    assert("dir"@.len() == 3);
    assert("div"@.len() == 3);
    assert("dl"@.len() == 2);
    assert("dt"@.len() == 2);
    assert("fieldset"@.len() == 8);
    assert("figcaption"@.len() == 10);
    assert("figure"@.len() == 6);
    assert("footer"@.len() == 6);
    assert("header"@.len() == 6);
    assert("hgroup"@.len() == 6);
    assert("li"@.len() == 2);
    assert("listing"@.len() == 7);
    assert("main"@.len() == 4);
    assert("menu"@.len() == 4);
    assert("nav"@.len() == 3);
    assert("ol"@.len() == 2);
    assert("optgroup"@.len() == 8);
    assert("option"@.len() == 6);
    assert("p"@.len() == 1);
    assert("pre"@.len() == 3);
    assert("rb"@.len() == 2);
    assert("rp"@.len() == 2);
    assert("rt"@.len() == 2);
    assert("rtc"@.len() == 3);
    assert("search"@.len() == 6);
    assert("section"@.len() == 7);
    assert("select"@.len() == 6);
    assert("summary"@.len() == 7);
    assert("ul"@.len() == 2);
    assert(CLOSABLE@.len() == 28);
    assert(IMPLIED_END_TAGS@.len() == 10);
    assert(CLOSABLE@[0]@ == "address"@);
    assert(CLOSABLE@[1]@ == "article"@);
    assert(CLOSABLE@[2]@ == "aside"@);
    assert(CLOSABLE@[3]@ == "blockquote"@);
    assert(CLOSABLE@[4]@ == "button"@);
    assert(CLOSABLE@[5]@ == "center"@);
    assert(CLOSABLE@[6]@ == "details"@);
    assert(CLOSABLE@[7]@ == "dialog"@);
    assert(CLOSABLE@[8]@ == "dir"@);
    assert(CLOSABLE@[9]@ == "div"@);
    assert(CLOSABLE@[10]@ == "dl"@);
    assert(CLOSABLE@[11]@ == "fieldset"@);
    assert(CLOSABLE@[12]@ == "figcaption"@);
    assert(CLOSABLE@[13]@ == "figure"@);
    assert(CLOSABLE@[14]@ == "footer"@);
    assert(CLOSABLE@[15]@ == "header"@);
    assert(CLOSABLE@[16]@ == "hgroup"@);
    assert(CLOSABLE@[17]@ == "listing"@);
    assert(CLOSABLE@[18]@ == "main"@);
    assert(CLOSABLE@[19]@ == "menu"@);
    assert(CLOSABLE@[20]@ == "nav"@);
    assert(CLOSABLE@[21]@ == "ol"@);
    assert(CLOSABLE@[22]@ == "pre"@);
    assert(CLOSABLE@[23]@ == "search"@);
    assert(CLOSABLE@[24]@ == "section"@);
    assert(CLOSABLE@[25]@ == "select"@);
    assert(CLOSABLE@[26]@ == "summary"@);
    assert(CLOSABLE@[27]@ == "ul"@);
    assert(IMPLIED_END_TAGS@[0]@ == "dd"@);
    assert(IMPLIED_END_TAGS@[1]@ == "dt"@);
    assert(IMPLIED_END_TAGS@[2]@ == "li"@);
    assert(IMPLIED_END_TAGS@[3]@ == "optgroup"@);
    assert(IMPLIED_END_TAGS@[4]@ == "option"@);
    assert(IMPLIED_END_TAGS@[5]@ == "p"@);
    assert(IMPLIED_END_TAGS@[6]@ == "rb"@);
    assert(IMPLIED_END_TAGS@[7]@ == "rp"@);
    assert(IMPLIED_END_TAGS@[8]@ == "rt"@);
    assert(IMPLIED_END_TAGS@[9]@ == "rtc"@);
    assert("button"@[0] != "option"@[0]);
    assert("center"@[0] != "option"@[0]);
    assert("dialog"@[0] != "option"@[0]);
    assert("dir"@[0] != "rtc"@[0]);
    assert("div"@[0] != "rtc"@[0]);
    assert("dl"@[1] != "dd"@[1]);
    assert("dl"@[1] != "dt"@[1]);
    assert("dl"@[0] != "li"@[0]);
    assert("dl"@[0] != "rb"@[0]);
    assert("dl"@[0] != "rp"@[0]);
    assert("dl"@[0] != "rt"@[0]);
    assert("fieldset"@[0] != "optgroup"@[0]);
    assert("figure"@[0] != "option"@[0]);
    assert("footer"@[0] != "option"@[0]);
    assert("header"@[0] != "option"@[0]);
    assert("hgroup"@[0] != "option"@[0]);
    assert("nav"@[0] != "rtc"@[0]);
    assert("ol"@[0] != "dd"@[0]);
    assert("ol"@[0] != "dt"@[0]);
    assert("ol"@[0] != "li"@[0]);
    assert("ol"@[0] != "rb"@[0]);
    assert("ol"@[0] != "rp"@[0]);
    assert("ol"@[0] != "rt"@[0]);
    assert("pre"@[0] != "rtc"@[0]);
    assert("search"@[0] != "option"@[0]);
    assert("select"@[0] != "option"@[0]);
    assert("ul"@[0] != "dd"@[0]);
    assert("ul"@[0] != "dt"@[0]);
    assert("ul"@[0] != "li"@[0]);
    assert("ul"@[0] != "rb"@[0]);
    assert("ul"@[0] != "rp"@[0]);
    assert("ul"@[0] != "rt"@[0]);
    if in_closable(name) {
        let i = choose|i: int| 0 <= i < CLOSABLE@.len() && (#[trigger] CLOSABLE@[i])@ == name;
        assert(i == 0 || i == 1 || i == 2 || i == 3 || i == 4 || i == 5 || i == 6 || i == 7
            || i == 8 || i == 9 || i == 10 || i == 11 || i == 12 || i == 13 || i == 14 || i == 15
            || i == 16 || i == 17 || i == 18 || i == 19 || i == 20 || i == 21 || i == 22
            || i == 23 || i == 24 || i == 25 || i == 26 || i == 27);
    }
    if in_implied_end_tags(name) {
        let i = choose|i: int| 0 <= i < IMPLIED_END_TAGS@.len()
            && (#[trigger] IMPLIED_END_TAGS@[i])@ == name;
        assert(i == 0 || i == 1 || i == 2 || i == 3 || i == 4 || i == 5 || i == 6 || i == 7
            || i == 8 || i == 9);
    }
}

/// The end tags of these elements are not implied.
pub proof fn lemma_marked_not_implied(name: Seq<char>)
    requires
        in_marked(name),
    ensures
        !in_implied_end_tags(name),
{
    reveal(in_marked);
    reveal(in_implied_end_tags);
    reveal_strlit("applet");
    reveal_strlit("dd");
    reveal_strlit("dt");
    reveal_strlit("li");
    reveal_strlit("marquee");
    reveal_strlit("object");
    reveal_strlit("optgroup");
    reveal_strlit("option");
    reveal_strlit("p");
    reveal_strlit("rb");
    reveal_strlit("rp");
    reveal_strlit("rt");
    reveal_strlit("rtc");
    assert("applet"@.len() == 6);
    assert("dd"@.len() == 2);
    assert("dt"@.len() == 2);
    assert("li"@.len() == 2);
    assert("marquee"@.len() == 7);
    assert("object"@.len() == 6);
    assert("optgroup"@.len() == 8);
    assert("option"@.len() == 6);
    assert("p"@.len() == 1);
    assert("rb"@.len() == 2);
    assert("rp"@.len() == 2);
    assert("rt"@.len() == 2);
    assert("rtc"@.len() == 3);
    assert(MARKED@.len() == 3);
    assert(IMPLIED_END_TAGS@.len() == 10);
    assert(MARKED@[0]@ == "applet"@);
    assert(MARKED@[1]@ == "marquee"@);
    assert(MARKED@[2]@ == "object"@);
    assert(IMPLIED_END_TAGS@[0]@ == "dd"@);
    assert(IMPLIED_END_TAGS@[1]@ == "dt"@);
    assert(IMPLIED_END_TAGS@[2]@ == "li"@);
    assert(IMPLIED_END_TAGS@[3]@ == "optgroup"@);
    assert(IMPLIED_END_TAGS@[4]@ == "option"@);
    assert(IMPLIED_END_TAGS@[5]@ == "p"@);
    assert(IMPLIED_END_TAGS@[6]@ == "rb"@);
    assert(IMPLIED_END_TAGS@[7]@ == "rp"@);
    assert(IMPLIED_END_TAGS@[8]@ == "rt"@);
    assert(IMPLIED_END_TAGS@[9]@ == "rtc"@);
    assert("applet"@[0] != "option"@[0]);
    assert("object"@[1] != "option"@[1]);
    if in_marked(name) {
        let i = choose|i: int| 0 <= i < MARKED@.len() && (#[trigger] MARKED@[i])@ == name;
        assert(i == 0 || i == 1 || i == 2);
    }
    if in_implied_end_tags(name) {
        let i = choose|i: int| 0 <= i < IMPLIED_END_TAGS@.len()
            && (#[trigger] IMPLIED_END_TAGS@[i])@ == name;
        assert(i == 0 || i == 1 || i == 2 || i == 3 || i == 4 || i == 5 || i == 6 || i == 7
            || i == 8 || i == 9);
    }
}

/// Every part is special.
pub proof fn lemma_special(name: Seq<char>)
    ensures
        !(part_named(name) is Other) ==> in_special(name),
{
    reveal(part_named);
    reveal(in_special);
    reveal_strlit("address");
    reveal_strlit("applet");
    reveal_strlit("area");
    reveal_strlit("article");
    reveal_strlit("aside");
    reveal_strlit("base");
    reveal_strlit("basefont");
    reveal_strlit("bgsound");
    reveal_strlit("blockquote");
    reveal_strlit("body");
    reveal_strlit("br");
    reveal_strlit("button");
    reveal_strlit("caption");
    reveal_strlit("center");
    reveal_strlit("col");
    reveal_strlit("colgroup");
    reveal_strlit("dd");
    reveal_strlit("details");
    reveal_strlit("dir");
    reveal_strlit("div");
    reveal_strlit("dl");
    reveal_strlit("dt");
    reveal_strlit("embed");
    reveal_strlit("fieldset");
    reveal_strlit("figcaption");
    reveal_strlit("figure");
    reveal_strlit("footer");
    reveal_strlit("form");
    reveal_strlit("frame");
    reveal_strlit("frameset");
    reveal_strlit("h1");
    reveal_strlit("h2");
    reveal_strlit("h3");
    reveal_strlit("h4");
    reveal_strlit("h5");
    reveal_strlit("h6");
    reveal_strlit("head");
    reveal_strlit("header");
    reveal_strlit("hgroup");
    reveal_strlit("hr");
    reveal_strlit("html");
    reveal_strlit("iframe");
    reveal_strlit("img");
    reveal_strlit("input");
    reveal_strlit("keygen");
    reveal_strlit("li");
    reveal_strlit("link");
    reveal_strlit("listing");
    reveal_strlit("main");
    reveal_strlit("marquee");
    reveal_strlit("menu");
    reveal_strlit("meta");
    reveal_strlit("nav");
    reveal_strlit("noembed");
    reveal_strlit("noframes");
    reveal_strlit("noscript");
    reveal_strlit("object");
    reveal_strlit("ol");
    reveal_strlit("p");
    reveal_strlit("param");
    reveal_strlit("plaintext");
    reveal_strlit("pre");
    reveal_strlit("script");
    reveal_strlit("search");
    reveal_strlit("section");
    reveal_strlit("select");
    reveal_strlit("source");
    reveal_strlit("style");
    reveal_strlit("summary");
    reveal_strlit("table");
    reveal_strlit("tbody");
    reveal_strlit("td");
    reveal_strlit("template");
    reveal_strlit("textarea");
    reveal_strlit("tfoot");
    reveal_strlit("th");
    reveal_strlit("thead");
    reveal_strlit("title");
    reveal_strlit("tr");
    reveal_strlit("track");
    reveal_strlit("ul");
    reveal_strlit("wbr");
    reveal_strlit("xmp");
    assert("address"@.len() == 7);
    assert("applet"@.len() == 6);
    assert("area"@.len() == 4);
    assert("article"@.len() == 7);
    assert("aside"@.len() == 5);
    assert("base"@.len() == 4);
    assert("basefont"@.len() == 8);
    assert("bgsound"@.len() == 7);
    assert("blockquote"@.len() == 10);
    assert("body"@.len() == 4);
    assert("br"@.len() == 2);
    assert("button"@.len() == 6);
    assert("caption"@.len() == 7);
    assert("center"@.len() == 6);
    assert("col"@.len() == 3);
    assert("colgroup"@.len() == 8);
    assert("dd"@.len() == 2);
    assert("details"@.len() == 7);
    assert("dir"@.len() == 3);
    assert("div"@.len() == 3);
    assert("dl"@.len() == 2);
    assert("dt"@.len() == 2);
    assert("embed"@.len() == 5);
    assert("fieldset"@.len() == 8);
    assert("figcaption"@.len() == 10);
    assert("figure"@.len() == 6);
    assert("footer"@.len() == 6);
    assert("form"@.len() == 4);
    assert("frame"@.len() == 5);
    assert("frameset"@.len() == 8);
    assert("h1"@.len() == 2);
    assert("h2"@.len() == 2);
    assert("h3"@.len() == 2);
    assert("h4"@.len() == 2);
    assert("h5"@.len() == 2);
    assert("h6"@.len() == 2);
    assert("head"@.len() == 4);
    assert("header"@.len() == 6);
    assert("hgroup"@.len() == 6);
    assert("hr"@.len() == 2);
    assert("html"@.len() == 4);
    assert("iframe"@.len() == 6);
    assert("img"@.len() == 3);
    assert("input"@.len() == 5);
    assert("keygen"@.len() == 6);
    assert("li"@.len() == 2);
    assert("link"@.len() == 4);
    assert("listing"@.len() == 7);
    assert("main"@.len() == 4);
    assert("marquee"@.len() == 7);
    assert("menu"@.len() == 4);
    assert("meta"@.len() == 4);
    assert("nav"@.len() == 3);
    assert("noembed"@.len() == 7);
    assert("noframes"@.len() == 8);
    assert("noscript"@.len() == 8);
    assert("object"@.len() == 6);
    assert("ol"@.len() == 2);
    assert("p"@.len() == 1);
    assert("param"@.len() == 5);
    assert("plaintext"@.len() == 9);
    assert("pre"@.len() == 3);
    assert("script"@.len() == 6);
    assert("search"@.len() == 6);
    assert("section"@.len() == 7);
    assert("select"@.len() == 6);
    assert("source"@.len() == 6);
    assert("style"@.len() == 5);
    assert("summary"@.len() == 7);
    assert("table"@.len() == 5);
    assert("tbody"@.len() == 5);
    assert("td"@.len() == 2);
    assert("template"@.len() == 8);
    assert("textarea"@.len() == 8);
    assert("tfoot"@.len() == 5);
    assert("th"@.len() == 2);
    assert("thead"@.len() == 5);
    assert("title"@.len() == 5);
    assert("tr"@.len() == 2);
    assert("track"@.len() == 5);
    assert("ul"@.len() == 2);
    assert("wbr"@.len() == 3);
    assert("xmp"@.len() == 3);
    assert(SPECIAL@.len() == 83);
    assert(SPECIAL@[0]@ == "address"@);
    assert(SPECIAL@[1]@ == "applet"@);
    assert(SPECIAL@[2]@ == "area"@);
    assert(SPECIAL@[3]@ == "article"@);
    assert(SPECIAL@[4]@ == "aside"@);
    assert(SPECIAL@[5]@ == "base"@);
    assert(SPECIAL@[6]@ == "basefont"@);
    assert(SPECIAL@[7]@ == "bgsound"@);
    assert(SPECIAL@[8]@ == "blockquote"@);
    assert(SPECIAL@[9]@ == "body"@);
    assert(SPECIAL@[10]@ == "br"@);
    assert(SPECIAL@[11]@ == "button"@);
    assert(SPECIAL@[12]@ == "caption"@);
    assert(SPECIAL@[13]@ == "center"@);
    assert(SPECIAL@[14]@ == "col"@);
    assert(SPECIAL@[15]@ == "colgroup"@);
    assert(SPECIAL@[16]@ == "dd"@);
    assert(SPECIAL@[17]@ == "details"@);
    assert(SPECIAL@[18]@ == "dir"@);
    assert(SPECIAL@[19]@ == "div"@);
    assert(SPECIAL@[20]@ == "dl"@);
    assert(SPECIAL@[21]@ == "dt"@);
    assert(SPECIAL@[22]@ == "embed"@);
    assert(SPECIAL@[23]@ == "fieldset"@);
    assert(SPECIAL@[24]@ == "figcaption"@);
    assert(SPECIAL@[25]@ == "figure"@);
    assert(SPECIAL@[26]@ == "footer"@);
    assert(SPECIAL@[27]@ == "form"@);
    assert(SPECIAL@[28]@ == "frame"@);
    assert(SPECIAL@[29]@ == "frameset"@);
    assert(SPECIAL@[30]@ == "h1"@);
    assert(SPECIAL@[31]@ == "h2"@);
    assert(SPECIAL@[32]@ == "h3"@);
    assert(SPECIAL@[33]@ == "h4"@);
    assert(SPECIAL@[34]@ == "h5"@);
    assert(SPECIAL@[35]@ == "h6"@);
    assert(SPECIAL@[36]@ == "head"@);
    assert(SPECIAL@[37]@ == "header"@);
    assert(SPECIAL@[38]@ == "hgroup"@);
    assert(SPECIAL@[39]@ == "hr"@);
    assert(SPECIAL@[40]@ == "html"@);
    assert(SPECIAL@[41]@ == "iframe"@);
    assert(SPECIAL@[42]@ == "img"@);
    assert(SPECIAL@[43]@ == "input"@);
    assert(SPECIAL@[44]@ == "keygen"@);
    assert(SPECIAL@[45]@ == "li"@);
    assert(SPECIAL@[46]@ == "link"@);
    assert(SPECIAL@[47]@ == "listing"@);
    assert(SPECIAL@[48]@ == "main"@);
    assert(SPECIAL@[49]@ == "marquee"@);
    assert(SPECIAL@[50]@ == "menu"@);
    assert(SPECIAL@[51]@ == "meta"@);
    assert(SPECIAL@[52]@ == "nav"@);
    assert(SPECIAL@[53]@ == "noembed"@);
    assert(SPECIAL@[54]@ == "noframes"@);
    assert(SPECIAL@[55]@ == "noscript"@);
    assert(SPECIAL@[56]@ == "object"@);
    assert(SPECIAL@[57]@ == "ol"@);
    assert(SPECIAL@[58]@ == "p"@);
    assert(SPECIAL@[59]@ == "param"@);
    assert(SPECIAL@[60]@ == "plaintext"@);
    assert(SPECIAL@[61]@ == "pre"@);
    assert(SPECIAL@[62]@ == "script"@);
    assert(SPECIAL@[63]@ == "search"@);
    assert(SPECIAL@[64]@ == "section"@);
    assert(SPECIAL@[65]@ == "select"@);
    assert(SPECIAL@[66]@ == "source"@);
    assert(SPECIAL@[67]@ == "style"@);
    assert(SPECIAL@[68]@ == "summary"@);
    assert(SPECIAL@[69]@ == "table"@);
    assert(SPECIAL@[70]@ == "tbody"@);
    assert(SPECIAL@[71]@ == "td"@);
    assert(SPECIAL@[72]@ == "template"@);
    assert(SPECIAL@[73]@ == "textarea"@);
    assert(SPECIAL@[74]@ == "tfoot"@);
    assert(SPECIAL@[75]@ == "th"@);
    assert(SPECIAL@[76]@ == "thead"@);
    assert(SPECIAL@[77]@ == "title"@);
    assert(SPECIAL@[78]@ == "tr"@);
    assert(SPECIAL@[79]@ == "track"@);
    assert(SPECIAL@[80]@ == "ul"@);
    assert(SPECIAL@[81]@ == "wbr"@);
    assert(SPECIAL@[82]@ == "xmp"@);
    assert("address"@[0] != "caption"@[0]);
    assert("area"@[0] != "html"@[0]);
    assert("area"@[0] != "head"@[0]);
    assert("area"@[0] != "body"@[0]);
    assert("article"@[0] != "caption"@[0]);
    assert("aside"@[0] != "table"@[0]);
    assert("aside"@[0] != "tbody"@[0]);
    assert("aside"@[0] != "thead"@[0]);
    assert("aside"@[0] != "tfoot"@[0]);
    assert("base"@[0] != "html"@[0]);
    assert("base"@[0] != "head"@[0]);
    assert("base"@[1] != "body"@[1]);
    assert("basefont"@[0] != "frameset"@[0]);
    assert("basefont"@[0] != "template"@[0]);
    assert("basefont"@[0] != "colgroup"@[0]);
    assert("bgsound"@[0] != "caption"@[0]);
    assert("body"@[0] != "html"@[0]);
    assert("body"@[0] != "head"@[0]);
    assert("br"@[0] != "tr"@[0]);
    assert("br"@[0] != "td"@[0]);
    assert("br"@[0] != "th"@[0]);
    assert("colgroup"@[0] != "frameset"@[0]);
    assert("colgroup"@[0] != "template"@[0]);
    assert("dd"@[0] != "tr"@[0]);
    assert("dd"@[0] != "td"@[0]);
    assert("dd"@[0] != "th"@[0]);
    assert("details"@[0] != "caption"@[0]);
    assert("dl"@[0] != "tr"@[0]);
    assert("dl"@[0] != "td"@[0]);
    assert("dl"@[0] != "th"@[0]);
    assert("dt"@[0] != "tr"@[0]);
    assert("dt"@[0] != "td"@[0]);
    assert("dt"@[0] != "th"@[0]);
    assert("embed"@[0] != "table"@[0]);
    assert("embed"@[0] != "tbody"@[0]);
    assert("embed"@[0] != "thead"@[0]);
    assert("embed"@[0] != "tfoot"@[0]);
    assert("fieldset"@[1] != "frameset"@[1]);
    assert("fieldset"@[0] != "template"@[0]);
    assert("fieldset"@[0] != "colgroup"@[0]);
    assert("form"@[0] != "html"@[0]);
    assert("form"@[0] != "head"@[0]);
    assert("form"@[0] != "body"@[0]);
    assert("frame"@[0] != "table"@[0]);
    assert("frame"@[0] != "tbody"@[0]);
    assert("frame"@[0] != "thead"@[0]);
    assert("frame"@[0] != "tfoot"@[0]);
    assert("frameset"@[0] != "template"@[0]);
    assert("h1"@[0] != "tr"@[0]);
    assert("h1"@[0] != "td"@[0]);
    assert("h1"@[0] != "th"@[0]);
    assert("h2"@[0] != "tr"@[0]);
    assert("h2"@[0] != "td"@[0]);
    assert("h2"@[0] != "th"@[0]);
    assert("h3"@[0] != "tr"@[0]);
    assert("h3"@[0] != "td"@[0]);
    assert("h3"@[0] != "th"@[0]);
    assert("h4"@[0] != "tr"@[0]);
    assert("h4"@[0] != "td"@[0]);
    assert("h4"@[0] != "th"@[0]);
    assert("h5"@[0] != "tr"@[0]);
    assert("h5"@[0] != "td"@[0]);
    assert("h5"@[0] != "th"@[0]);
    assert("h6"@[0] != "tr"@[0]);
    assert("h6"@[0] != "td"@[0]);
    assert("h6"@[0] != "th"@[0]);
    assert("head"@[1] != "html"@[1]);
    assert("hr"@[0] != "tr"@[0]);
    assert("hr"@[0] != "td"@[0]);
    assert("hr"@[0] != "th"@[0]);
    assert("input"@[0] != "table"@[0]);
    assert("input"@[0] != "tbody"@[0]);
    assert("input"@[0] != "thead"@[0]);
    assert("input"@[0] != "tfoot"@[0]);
    assert("li"@[0] != "tr"@[0]);
    assert("li"@[0] != "td"@[0]);
    assert("li"@[0] != "th"@[0]);
    assert("link"@[0] != "html"@[0]);
    assert("link"@[0] != "head"@[0]);
    assert("link"@[0] != "body"@[0]);
    assert("listing"@[0] != "caption"@[0]);
    assert("main"@[0] != "html"@[0]);
    assert("main"@[0] != "head"@[0]);
    assert("main"@[0] != "body"@[0]);
    assert("marquee"@[0] != "caption"@[0]);
    assert("menu"@[0] != "html"@[0]);
    assert("menu"@[0] != "head"@[0]);
    assert("menu"@[0] != "body"@[0]);
    assert("meta"@[0] != "html"@[0]);
    assert("meta"@[0] != "head"@[0]);
    assert("meta"@[0] != "body"@[0]);
    assert("noembed"@[0] != "caption"@[0]);
    assert("noframes"@[0] != "frameset"@[0]);
    assert("noframes"@[0] != "template"@[0]);
    assert("noframes"@[0] != "colgroup"@[0]);
    assert("noscript"@[0] != "frameset"@[0]);
    assert("noscript"@[0] != "template"@[0]);
    assert("noscript"@[0] != "colgroup"@[0]);
    assert("ol"@[0] != "tr"@[0]);
    assert("ol"@[0] != "td"@[0]);
    assert("ol"@[0] != "th"@[0]);
    assert("param"@[0] != "table"@[0]);
    assert("param"@[0] != "tbody"@[0]);
    assert("param"@[0] != "thead"@[0]);
    assert("param"@[0] != "tfoot"@[0]);
    assert("section"@[0] != "caption"@[0]);
    assert("style"@[0] != "table"@[0]);
    assert("style"@[0] != "tbody"@[0]);
    assert("style"@[0] != "thead"@[0]);
    assert("style"@[0] != "tfoot"@[0]);
    assert("summary"@[0] != "caption"@[0]);
    assert("table"@[1] != "tbody"@[1]);
    assert("table"@[1] != "thead"@[1]);
    assert("table"@[1] != "tfoot"@[1]);
    assert("tbody"@[1] != "thead"@[1]);
    assert("tbody"@[1] != "tfoot"@[1]);
    assert("td"@[1] != "tr"@[1]);
    assert("td"@[1] != "th"@[1]);
    assert("textarea"@[0] != "frameset"@[0]);
    assert("textarea"@[2] != "template"@[2]);
    assert("textarea"@[0] != "colgroup"@[0]);
    assert("tfoot"@[1] != "thead"@[1]);
    assert("th"@[1] != "tr"@[1]);
    assert("title"@[1] != "table"@[1]);
    assert("title"@[1] != "tbody"@[1]);
    assert("title"@[1] != "thead"@[1]);
    assert("title"@[1] != "tfoot"@[1]);
    assert("track"@[1] != "table"@[1]);
    assert("track"@[1] != "tbody"@[1]);
    assert("track"@[1] != "thead"@[1]);
    assert("track"@[1] != "tfoot"@[1]);
    assert("ul"@[0] != "tr"@[0]);
    assert("ul"@[0] != "td"@[0]);
    assert("ul"@[0] != "th"@[0]);
    assert("html"@[1] != "head"@[1]);
    assert("html"@[0] != "body"@[0]);
    assert("head"@[0] != "body"@[0]);
    assert("frameset"@[0] != "template"@[0]);
    assert("frameset"@[0] != "colgroup"@[0]);
    assert("template"@[0] != "colgroup"@[0]);
    assert("table"@[1] != "tbody"@[1]);
    assert("table"@[1] != "thead"@[1]);
    assert("table"@[1] != "tfoot"@[1]);
    assert("tbody"@[1] != "thead"@[1]);
    assert("tbody"@[1] != "tfoot"@[1]);
    assert("thead"@[1] != "tfoot"@[1]);
    assert("tr"@[1] != "td"@[1]);
    assert("tr"@[1] != "th"@[1]);
    assert("td"@[1] != "th"@[1]);
    if in_special(name) {
        let i = choose|i: int| 0 <= i < SPECIAL@.len() && (#[trigger] SPECIAL@[i])@ == name;
        assert(i == 0 || i == 1 || i == 2 || i == 3 || i == 4 || i == 5 || i == 6 || i == 7
            || i == 8 || i == 9 || i == 10 || i == 11 || i == 12 || i == 13 || i == 14 || i == 15
            || i == 16 || i == 17 || i == 18 || i == 19 || i == 20 || i == 21 || i == 22
            || i == 23 || i == 24 || i == 25 || i == 26 || i == 27 || i == 28 || i == 29
            || i == 30 || i == 31 || i == 32 || i == 33 || i == 34 || i == 35 || i == 36
            || i == 37 || i == 38 || i == 39 || i == 40 || i == 41 || i == 42 || i == 43
            || i == 44 || i == 45 || i == 46 || i == 47 || i == 48 || i == 49 || i == 50
            || i == 51 || i == 52 || i == 53 || i == 54 || i == 55 || i == 56 || i == 57
            || i == 58 || i == 59 || i == 60 || i == 61 || i == 62 || i == 63 || i == 64
            || i == 65 || i == 66 || i == 67 || i == 68 || i == 69 || i == 70 || i == 71
            || i == 72 || i == 73 || i == 74 || i == 75 || i == 76 || i == 77 || i == 78
            || i == 79 || i == 80 || i == 81 || i == 82);
    }
}

/// The parts that bound every scope.
pub proof fn lemma_default_scope(name: Seq<char>)
    ensures
        part_named(name) is Html || part_named(name) is Table || part_named(name) is Template
            ==> in_default_scope(name),
{
    reveal(part_named);
    reveal(in_default_scope);
    reveal_strlit("applet");
    reveal_strlit("body");
    reveal_strlit("caption");
    reveal_strlit("colgroup");
    reveal_strlit("frameset");
    reveal_strlit("head");
    reveal_strlit("html");
    reveal_strlit("marquee");
    reveal_strlit("object");
    reveal_strlit("select");
    reveal_strlit("table");
    reveal_strlit("tbody");
    reveal_strlit("td");
    reveal_strlit("template");
    reveal_strlit("tfoot");
    reveal_strlit("th");
    reveal_strlit("thead");
    reveal_strlit("tr");
    assert("applet"@.len() == 6);
    assert("body"@.len() == 4);
    assert("caption"@.len() == 7);
    assert("colgroup"@.len() == 8);
    assert("frameset"@.len() == 8);
    assert("head"@.len() == 4);
    assert("html"@.len() == 4);
    assert("marquee"@.len() == 7);
    assert("object"@.len() == 6);
    assert("select"@.len() == 6);
    assert("table"@.len() == 5);
    assert("tbody"@.len() == 5);
    assert("td"@.len() == 2);
    assert("template"@.len() == 8);
    assert("tfoot"@.len() == 5);
    assert("th"@.len() == 2);
    assert("thead"@.len() == 5);
    assert("tr"@.len() == 2);
    assert(DEFAULT_SCOPE@.len() == 10);
    assert(DEFAULT_SCOPE@[0]@ == "applet"@);
    assert(DEFAULT_SCOPE@[1]@ == "caption"@);
    assert(DEFAULT_SCOPE@[2]@ == "html"@);
    assert(DEFAULT_SCOPE@[3]@ == "table"@);
    assert(DEFAULT_SCOPE@[4]@ == "td"@);
    assert(DEFAULT_SCOPE@[5]@ == "th"@);
    assert(DEFAULT_SCOPE@[6]@ == "marquee"@);
    assert(DEFAULT_SCOPE@[7]@ == "object"@);
    assert(DEFAULT_SCOPE@[8]@ == "select"@);
    assert(DEFAULT_SCOPE@[9]@ == "template"@);
    assert("html"@[1] != "head"@[1]);
    assert("html"@[0] != "body"@[0]);
    assert("table"@[1] != "tbody"@[1]);
    assert("table"@[1] != "thead"@[1]);
    assert("table"@[1] != "tfoot"@[1]);
    assert("td"@[1] != "tr"@[1]);
    assert("td"@[1] != "th"@[1]);
    assert("th"@[1] != "tr"@[1]);
    assert("marquee"@[0] != "caption"@[0]);
    assert("template"@[0] != "frameset"@[0]);
    assert("template"@[0] != "colgroup"@[0]);
    assert("html"@[1] != "head"@[1]);
    assert("html"@[0] != "body"@[0]);
    assert("head"@[0] != "body"@[0]);
    assert("frameset"@[0] != "template"@[0]);
    assert("frameset"@[0] != "colgroup"@[0]);
    assert("template"@[0] != "colgroup"@[0]);
    assert("table"@[1] != "tbody"@[1]);
    assert("table"@[1] != "thead"@[1]);
    assert("table"@[1] != "tfoot"@[1]);
    assert("tbody"@[1] != "thead"@[1]);
    assert("tbody"@[1] != "tfoot"@[1]);
    assert("thead"@[1] != "tfoot"@[1]);
    assert("tr"@[1] != "td"@[1]);
    assert("tr"@[1] != "th"@[1]);
    assert("td"@[1] != "th"@[1]);
    if in_default_scope(name) {
        let i = choose|i: int| 0 <= i < DEFAULT_SCOPE@.len()
            && (#[trigger] DEFAULT_SCOPE@[i])@ == name;
        assert(i == 0 || i == 1 || i == 2 || i == 3 || i == 4 || i == 5 || i == 6 || i == 7
            || i == 8 || i == 9);
    }
}

/// The parts that bound table scope.
pub proof fn lemma_table_scope(name: Seq<char>)
    ensures
        part_named(name) is Html || part_named(name) is Table || part_named(name) is Template
            ==> in_table_scope(name),
{
    reveal(part_named);
    reveal(in_table_scope);
    reveal_strlit("body");
    reveal_strlit("caption");
    reveal_strlit("colgroup");
    reveal_strlit("frameset");
    reveal_strlit("head");
    reveal_strlit("html");
    reveal_strlit("table");
    reveal_strlit("tbody");
    reveal_strlit("td");
    reveal_strlit("template");
    reveal_strlit("tfoot");
    reveal_strlit("th");
    reveal_strlit("thead");
    reveal_strlit("tr");
    assert("body"@.len() == 4);
    assert("caption"@.len() == 7);
    assert("colgroup"@.len() == 8);
    assert("frameset"@.len() == 8);
    assert("head"@.len() == 4);
    assert("html"@.len() == 4);
    assert("table"@.len() == 5);
    assert("tbody"@.len() == 5);
    assert("td"@.len() == 2);
    assert("template"@.len() == 8);
    assert("tfoot"@.len() == 5);
    assert("th"@.len() == 2);
    assert("thead"@.len() == 5);
    assert("tr"@.len() == 2);
    assert(TABLE_SCOPE@.len() == 3);
    assert(TABLE_SCOPE@[0]@ == "html"@);
    assert(TABLE_SCOPE@[1]@ == "table"@);
    assert(TABLE_SCOPE@[2]@ == "template"@);
    assert("html"@[1] != "head"@[1]);
    assert("html"@[0] != "body"@[0]);
    assert("table"@[1] != "tbody"@[1]);
    assert("table"@[1] != "thead"@[1]);
    assert("table"@[1] != "tfoot"@[1]);
    assert("template"@[0] != "frameset"@[0]);
    assert("template"@[0] != "colgroup"@[0]);
    assert("html"@[1] != "head"@[1]);
    assert("html"@[0] != "body"@[0]);
    assert("head"@[0] != "body"@[0]);
    assert("frameset"@[0] != "template"@[0]);
    assert("frameset"@[0] != "colgroup"@[0]);
    assert("template"@[0] != "colgroup"@[0]);
    assert("table"@[1] != "tbody"@[1]);
    assert("table"@[1] != "thead"@[1]);
    assert("table"@[1] != "tfoot"@[1]);
    assert("tbody"@[1] != "thead"@[1]);
    assert("tbody"@[1] != "tfoot"@[1]);
    assert("thead"@[1] != "tfoot"@[1]);
    assert("tr"@[1] != "td"@[1]);
    assert("tr"@[1] != "th"@[1]);
    assert("td"@[1] != "th"@[1]);
    if in_table_scope(name) {
        let i = choose|i: int| 0 <= i < TABLE_SCOPE@.len() && (#[trigger] TABLE_SCOPE@[i])@ == name;
        assert(i == 0 || i == 1 || i == 2);
    }
}

/// The parts with these names.
pub proof fn lemma_table_context(name: Seq<char>)
    ensures
        in_table_context(name) <==> part_named(name) is Html || part_named(name) is Table
            || part_named(name) is Template,
{
    reveal(part_named);
    reveal(in_table_context);
    reveal_strlit("body");
    reveal_strlit("caption");
    reveal_strlit("colgroup");
    reveal_strlit("frameset");
    reveal_strlit("head");
    reveal_strlit("html");
    reveal_strlit("table");
    reveal_strlit("tbody");
    reveal_strlit("td");
    reveal_strlit("template");
    reveal_strlit("tfoot");
    reveal_strlit("th");
    reveal_strlit("thead");
    reveal_strlit("tr");
    assert("body"@.len() == 4);
    assert("caption"@.len() == 7);
    assert("colgroup"@.len() == 8);
    assert("frameset"@.len() == 8);
    assert("head"@.len() == 4);
    assert("html"@.len() == 4);
    assert("table"@.len() == 5);
    assert("tbody"@.len() == 5);
    assert("td"@.len() == 2);
    assert("template"@.len() == 8);
    assert("tfoot"@.len() == 5);
    assert("th"@.len() == 2);
    assert("thead"@.len() == 5);
    assert("tr"@.len() == 2);
    assert(TABLE_CONTEXT@.len() == 3);
    assert(TABLE_CONTEXT@[0]@ == "table"@);
    assert(TABLE_CONTEXT@[1]@ == "template"@);
    assert(TABLE_CONTEXT@[2]@ == "html"@);
    assert("table"@[1] != "tbody"@[1]);
    assert("table"@[1] != "thead"@[1]);
    assert("table"@[1] != "tfoot"@[1]);
    assert("template"@[0] != "frameset"@[0]);
    assert("template"@[0] != "colgroup"@[0]);
    assert("html"@[1] != "head"@[1]);
    assert("html"@[0] != "body"@[0]);
    assert("html"@[1] != "head"@[1]);
    assert("html"@[0] != "body"@[0]);
    assert("head"@[0] != "body"@[0]);
    assert("frameset"@[0] != "template"@[0]);
    assert("frameset"@[0] != "colgroup"@[0]);
    assert("template"@[0] != "colgroup"@[0]);
    assert("table"@[1] != "tbody"@[1]);
    assert("table"@[1] != "thead"@[1]);
    assert("table"@[1] != "tfoot"@[1]);
    assert("tbody"@[1] != "thead"@[1]);
    assert("tbody"@[1] != "tfoot"@[1]);
    assert("thead"@[1] != "tfoot"@[1]);
    assert("tr"@[1] != "td"@[1]);
    assert("tr"@[1] != "th"@[1]);
    assert("td"@[1] != "th"@[1]);
    if in_table_context(name) {
        let i = choose|i: int| 0 <= i < TABLE_CONTEXT@.len()
            && (#[trigger] TABLE_CONTEXT@[i])@ == name;
        assert(i == 0 || i == 1 || i == 2);
    }
}

/// The parts with these names.
pub proof fn lemma_table_body_context(name: Seq<char>)
    ensures
        in_table_body_context(name) <==> part_named(name) is Html || part_named(name) is Section
            || part_named(name) is Template,
{
    reveal(part_named);
    reveal(in_table_body_context);
    reveal_strlit("body");
    reveal_strlit("caption");
    reveal_strlit("colgroup");
    reveal_strlit("frameset");
    reveal_strlit("head");
    reveal_strlit("html");
    reveal_strlit("table");
    reveal_strlit("tbody");
    reveal_strlit("td");
    reveal_strlit("template");
    reveal_strlit("tfoot");
    reveal_strlit("th");
    reveal_strlit("thead");
    reveal_strlit("tr");
    assert("body"@.len() == 4);
    assert("caption"@.len() == 7);
    assert("colgroup"@.len() == 8);
    assert("frameset"@.len() == 8);
    assert("head"@.len() == 4);
    assert("html"@.len() == 4);
    assert("table"@.len() == 5);
    assert("tbody"@.len() == 5);
    assert("td"@.len() == 2);
    assert("template"@.len() == 8);
    assert("tfoot"@.len() == 5);
    assert("th"@.len() == 2);
    assert("thead"@.len() == 5);
    assert("tr"@.len() == 2);
    assert(TABLE_BODY_CONTEXT@.len() == 5);
    assert(TABLE_BODY_CONTEXT@[0]@ == "tbody"@);
    assert(TABLE_BODY_CONTEXT@[1]@ == "tfoot"@);
    assert(TABLE_BODY_CONTEXT@[2]@ == "thead"@);
    assert(TABLE_BODY_CONTEXT@[3]@ == "template"@);
    assert(TABLE_BODY_CONTEXT@[4]@ == "html"@);
    assert("tbody"@[1] != "table"@[1]);
    assert("tbody"@[1] != "thead"@[1]);
    assert("tbody"@[1] != "tfoot"@[1]);
    assert("tfoot"@[1] != "table"@[1]);
    assert("tfoot"@[1] != "thead"@[1]);
    assert("thead"@[1] != "table"@[1]);
    assert("template"@[0] != "frameset"@[0]);
    assert("template"@[0] != "colgroup"@[0]);
    assert("html"@[1] != "head"@[1]);
    assert("html"@[0] != "body"@[0]);
    assert("html"@[1] != "head"@[1]);
    assert("html"@[0] != "body"@[0]);
    assert("head"@[0] != "body"@[0]);
    assert("frameset"@[0] != "template"@[0]);
    assert("frameset"@[0] != "colgroup"@[0]);
    assert("template"@[0] != "colgroup"@[0]);
    assert("table"@[1] != "tbody"@[1]);
    assert("table"@[1] != "thead"@[1]);
    assert("table"@[1] != "tfoot"@[1]);
    assert("tbody"@[1] != "thead"@[1]);
    assert("tbody"@[1] != "tfoot"@[1]);
    assert("thead"@[1] != "tfoot"@[1]);
    assert("tr"@[1] != "td"@[1]);
    assert("tr"@[1] != "th"@[1]);
    assert("td"@[1] != "th"@[1]);
    if in_table_body_context(name) {
        let i = choose|i: int| 0 <= i < TABLE_BODY_CONTEXT@.len()
            && (#[trigger] TABLE_BODY_CONTEXT@[i])@ == name;
        assert(i == 0 || i == 1 || i == 2 || i == 3 || i == 4);
    }
}

/// The parts with these names.
pub proof fn lemma_table_row_context(name: Seq<char>)
    ensures
        in_table_row_context(
            name,
        ) <==> part_named(name) is Html || part_named(name) is Row || part_named(name) is Template,
{
    reveal(part_named);
    reveal(in_table_row_context);
    reveal_strlit("body");
    reveal_strlit("caption");
    reveal_strlit("colgroup");
    reveal_strlit("frameset");
    reveal_strlit("head");
    reveal_strlit("html");
    reveal_strlit("table");
    reveal_strlit("tbody");
    reveal_strlit("td");
    reveal_strlit("template");
    reveal_strlit("tfoot");
    reveal_strlit("th");
    reveal_strlit("thead");
    reveal_strlit("tr");
    assert("body"@.len() == 4);
    assert("caption"@.len() == 7);
    assert("colgroup"@.len() == 8);
    assert("frameset"@.len() == 8);
    assert("head"@.len() == 4);
    assert("html"@.len() == 4);
    assert("table"@.len() == 5);
    assert("tbody"@.len() == 5);
    assert("td"@.len() == 2);
    assert("template"@.len() == 8);
    assert("tfoot"@.len() == 5);
    assert("th"@.len() == 2);
    assert("thead"@.len() == 5);
    assert("tr"@.len() == 2);
    assert(TABLE_ROW_CONTEXT@.len() == 3);
    assert(TABLE_ROW_CONTEXT@[0]@ == "tr"@);
    assert(TABLE_ROW_CONTEXT@[1]@ == "template"@);
    assert(TABLE_ROW_CONTEXT@[2]@ == "html"@);
    assert("tr"@[1] != "td"@[1]);
    assert("tr"@[1] != "th"@[1]);
    assert("template"@[0] != "frameset"@[0]);
    assert("template"@[0] != "colgroup"@[0]);
    assert("html"@[1] != "head"@[1]);
    assert("html"@[0] != "body"@[0]);
    assert("html"@[1] != "head"@[1]);
    assert("html"@[0] != "body"@[0]);
    assert("head"@[0] != "body"@[0]);
    assert("frameset"@[0] != "template"@[0]);
    assert("frameset"@[0] != "colgroup"@[0]);
    assert("template"@[0] != "colgroup"@[0]);
    assert("table"@[1] != "tbody"@[1]);
    assert("table"@[1] != "thead"@[1]);
    assert("table"@[1] != "tfoot"@[1]);
    assert("tbody"@[1] != "thead"@[1]);
    assert("tbody"@[1] != "tfoot"@[1]);
    assert("thead"@[1] != "tfoot"@[1]);
    assert("tr"@[1] != "td"@[1]);
    assert("tr"@[1] != "th"@[1]);
    assert("td"@[1] != "th"@[1]);
    if in_table_row_context(name) {
        let i = choose|i: int| 0 <= i < TABLE_ROW_CONTEXT@.len()
            && (#[trigger] TABLE_ROW_CONTEXT@[i])@ == name;
        assert(i == 0 || i == 1 || i == 2);
    }
}

/// The parts with these names.
pub proof fn lemma_cells(name: Seq<char>)
    ensures
        in_cells(name) <==> part_named(name) is Cell,
{
    reveal(part_named);
    reveal(in_cells);
    reveal_strlit("body");
    reveal_strlit("caption");
    reveal_strlit("colgroup");
    reveal_strlit("frameset");
    reveal_strlit("head");
    reveal_strlit("html");
    reveal_strlit("table");
    reveal_strlit("tbody");
    reveal_strlit("td");
    reveal_strlit("template");
    reveal_strlit("tfoot");
    reveal_strlit("th");
    reveal_strlit("thead");
    reveal_strlit("tr");
    assert("body"@.len() == 4);
    assert("caption"@.len() == 7);
    assert("colgroup"@.len() == 8);
    assert("frameset"@.len() == 8);
    assert("head"@.len() == 4);
    assert("html"@.len() == 4);
    assert("table"@.len() == 5);
    assert("tbody"@.len() == 5);
    assert("td"@.len() == 2);
    assert("template"@.len() == 8);
    assert("tfoot"@.len() == 5);
    assert("th"@.len() == 2);
    assert("thead"@.len() == 5);
    assert("tr"@.len() == 2);
    assert(CELLS@.len() == 2);
    assert(CELLS@[0]@ == "td"@);
    assert(CELLS@[1]@ == "th"@);
    assert("td"@[1] != "tr"@[1]);
    assert("td"@[1] != "th"@[1]);
    assert("th"@[1] != "tr"@[1]);
    assert("html"@[1] != "head"@[1]);
    assert("html"@[0] != "body"@[0]);
    assert("head"@[0] != "body"@[0]);
    assert("frameset"@[0] != "template"@[0]);
    assert("frameset"@[0] != "colgroup"@[0]);
    assert("template"@[0] != "colgroup"@[0]);
    assert("table"@[1] != "tbody"@[1]);
    assert("table"@[1] != "thead"@[1]);
    assert("table"@[1] != "tfoot"@[1]);
    assert("tbody"@[1] != "thead"@[1]);
    assert("tbody"@[1] != "tfoot"@[1]);
    assert("thead"@[1] != "tfoot"@[1]);
    assert("tr"@[1] != "td"@[1]);
    assert("tr"@[1] != "th"@[1]);
    assert("td"@[1] != "th"@[1]);
    if in_cells(name) {
        let i = choose|i: int| 0 <= i < CELLS@.len() && (#[trigger] CELLS@[i])@ == name;
        assert(i == 0 || i == 1);
    }
}

/// The parts with these names.
pub proof fn lemma_table_sections(name: Seq<char>)
    ensures
        in_table_sections(name) <==> part_named(name) is Section,
{
    reveal(part_named);
    reveal(in_table_sections);
    reveal_strlit("body");
    reveal_strlit("caption");
    reveal_strlit("colgroup");
    reveal_strlit("frameset");
    reveal_strlit("head");
    reveal_strlit("html");
    reveal_strlit("table");
    reveal_strlit("tbody");
    reveal_strlit("td");
    reveal_strlit("template");
    reveal_strlit("tfoot");
    reveal_strlit("th");
    reveal_strlit("thead");
    reveal_strlit("tr");
    assert("body"@.len() == 4);
    assert("caption"@.len() == 7);
    assert("colgroup"@.len() == 8);
    assert("frameset"@.len() == 8);
    assert("head"@.len() == 4);
    assert("html"@.len() == 4);
    assert("table"@.len() == 5);
    assert("tbody"@.len() == 5);
    assert("td"@.len() == 2);
    assert("template"@.len() == 8);
    assert("tfoot"@.len() == 5);
    assert("th"@.len() == 2);
    assert("thead"@.len() == 5);
    assert("tr"@.len() == 2);
    assert(TABLE_SECTIONS@.len() == 3);
    assert(TABLE_SECTIONS@[0]@ == "tbody"@);
    assert(TABLE_SECTIONS@[1]@ == "tfoot"@);
    assert(TABLE_SECTIONS@[2]@ == "thead"@);
    assert("tbody"@[1] != "table"@[1]);
    assert("tbody"@[1] != "thead"@[1]);
    assert("tbody"@[1] != "tfoot"@[1]);
    assert("tfoot"@[1] != "table"@[1]);
    assert("tfoot"@[1] != "thead"@[1]);
    assert("thead"@[1] != "table"@[1]);
    assert("html"@[1] != "head"@[1]);
    assert("html"@[0] != "body"@[0]);
    assert("head"@[0] != "body"@[0]);
    assert("frameset"@[0] != "template"@[0]);
    assert("frameset"@[0] != "colgroup"@[0]);
    assert("template"@[0] != "colgroup"@[0]);
    assert("table"@[1] != "tbody"@[1]);
    assert("table"@[1] != "thead"@[1]);
    assert("table"@[1] != "tfoot"@[1]);
    assert("tbody"@[1] != "thead"@[1]);
    assert("tbody"@[1] != "tfoot"@[1]);
    assert("thead"@[1] != "tfoot"@[1]);
    assert("tr"@[1] != "td"@[1]);
    assert("tr"@[1] != "th"@[1]);
    assert("td"@[1] != "th"@[1]);
    if in_table_sections(name) {
        let i = choose|i: int| 0 <= i < TABLE_SECTIONS@.len()
            && (#[trigger] TABLE_SECTIONS@[i])@ == name;
        assert(i == 0 || i == 1 || i == 2);
    }
}

/// The parts with these names.
pub proof fn lemma_foster_targets(name: Seq<char>)
    ensures
        in_foster_targets(
            name,
        ) ==> part_named(name) is Table || part_named(name) is Section || part_named(name) is Row,
{
    reveal(part_named);
    reveal(in_foster_targets);
    reveal_strlit("body");
    reveal_strlit("caption");
    reveal_strlit("colgroup");
    reveal_strlit("frameset");
    reveal_strlit("head");
    reveal_strlit("html");
    reveal_strlit("table");
    reveal_strlit("tbody");
    reveal_strlit("td");
    reveal_strlit("template");
    reveal_strlit("tfoot");
    reveal_strlit("th");
    reveal_strlit("thead");
    reveal_strlit("tr");
    assert("body"@.len() == 4);
    assert("caption"@.len() == 7);
    assert("colgroup"@.len() == 8);
    assert("frameset"@.len() == 8);
    assert("head"@.len() == 4);
    assert("html"@.len() == 4);
    assert("table"@.len() == 5);
    assert("tbody"@.len() == 5);
    assert("td"@.len() == 2);
    assert("template"@.len() == 8);
    assert("tfoot"@.len() == 5);
    assert("th"@.len() == 2);
    assert("thead"@.len() == 5);
    assert("tr"@.len() == 2);
    assert(FOSTER_TARGETS@.len() == 5);
    assert(FOSTER_TARGETS@[0]@ == "table"@);
    assert(FOSTER_TARGETS@[1]@ == "tbody"@);
    assert(FOSTER_TARGETS@[2]@ == "tfoot"@);
    assert(FOSTER_TARGETS@[3]@ == "thead"@);
    assert(FOSTER_TARGETS@[4]@ == "tr"@);
    assert("table"@[1] != "tbody"@[1]);
    assert("table"@[1] != "thead"@[1]);
    assert("table"@[1] != "tfoot"@[1]);
    assert("tbody"@[1] != "thead"@[1]);
    assert("tbody"@[1] != "tfoot"@[1]);
    assert("tfoot"@[1] != "thead"@[1]);
    assert("tr"@[1] != "td"@[1]);
    assert("tr"@[1] != "th"@[1]);
    assert("html"@[1] != "head"@[1]);
    assert("html"@[0] != "body"@[0]);
    assert("head"@[0] != "body"@[0]);
    assert("frameset"@[0] != "template"@[0]);
    assert("frameset"@[0] != "colgroup"@[0]);
    assert("template"@[0] != "colgroup"@[0]);
    assert("table"@[1] != "tbody"@[1]);
    assert("table"@[1] != "thead"@[1]);
    assert("table"@[1] != "tfoot"@[1]);
    assert("tbody"@[1] != "thead"@[1]);
    assert("tbody"@[1] != "tfoot"@[1]);
    assert("thead"@[1] != "tfoot"@[1]);
    assert("tr"@[1] != "td"@[1]);
    assert("tr"@[1] != "th"@[1]);
    assert("td"@[1] != "th"@[1]);
    if in_foster_targets(name) {
        let i = choose|i: int| 0 <= i < FOSTER_TARGETS@.len()
            && (#[trigger] FOSTER_TARGETS@[i])@ == name;
        assert(i == 0 || i == 1 || i == 2 || i == 3 || i == 4);
    }
}

/// What is implied at the end of a template is inside of it.
pub proof fn lemma_implied_end_tags_thoroughly(name: Seq<char>)
    ensures
        in_implied_end_tags_thoroughly(
            name,
        ) ==> !(part_named(name) is Html) && !(part_named(name) is Head)
            && !(part_named(name) is Body) && !(part_named(name) is Frameset)
            && !(part_named(name) is Template) && !(part_named(name) is Table),
{
    reveal(part_named);
    reveal(in_implied_end_tags_thoroughly);
    reveal_strlit("body");
    reveal_strlit("caption");
    reveal_strlit("colgroup");
    reveal_strlit("dd");
    reveal_strlit("dt");
    reveal_strlit("frameset");
    reveal_strlit("head");
    reveal_strlit("html");
    reveal_strlit("li");
    reveal_strlit("optgroup");
    reveal_strlit("option");
    reveal_strlit("p");
    reveal_strlit("rb");
    reveal_strlit("rp");
    reveal_strlit("rt");
    reveal_strlit("rtc");
    reveal_strlit("table");
    reveal_strlit("tbody");
    reveal_strlit("td");
    reveal_strlit("template");
    reveal_strlit("tfoot");
    reveal_strlit("th");
    reveal_strlit("thead");
    reveal_strlit("tr");
    assert("body"@.len() == 4);
    assert("caption"@.len() == 7);
    assert("colgroup"@.len() == 8);
    assert("dd"@.len() == 2);
    assert("dt"@.len() == 2);
    assert("frameset"@.len() == 8);
    assert("head"@.len() == 4);
    assert("html"@.len() == 4);
    assert("li"@.len() == 2);
    assert("optgroup"@.len() == 8);
    assert("option"@.len() == 6);
    assert("p"@.len() == 1);
    assert("rb"@.len() == 2);
    assert("rp"@.len() == 2);
    assert("rt"@.len() == 2);
    assert("rtc"@.len() == 3);
    assert("table"@.len() == 5);
    assert("tbody"@.len() == 5);
    assert("td"@.len() == 2);
    assert("template"@.len() == 8);
    assert("tfoot"@.len() == 5);
    assert("th"@.len() == 2);
    assert("thead"@.len() == 5);
    assert("tr"@.len() == 2);
    assert(IMPLIED_END_TAGS_THOROUGHLY@.len() == 18);
    assert(IMPLIED_END_TAGS_THOROUGHLY@[0]@ == "caption"@);
    assert(IMPLIED_END_TAGS_THOROUGHLY@[1]@ == "colgroup"@);
    assert(IMPLIED_END_TAGS_THOROUGHLY@[2]@ == "dd"@);
    assert(IMPLIED_END_TAGS_THOROUGHLY@[3]@ == "dt"@);
    assert(IMPLIED_END_TAGS_THOROUGHLY@[4]@ == "li"@);
    assert(IMPLIED_END_TAGS_THOROUGHLY@[5]@ == "optgroup"@);
    assert(IMPLIED_END_TAGS_THOROUGHLY@[6]@ == "option"@);
    assert(IMPLIED_END_TAGS_THOROUGHLY@[7]@ == "p"@);
    assert(IMPLIED_END_TAGS_THOROUGHLY@[8]@ == "rb"@);
    assert(IMPLIED_END_TAGS_THOROUGHLY@[9]@ == "rp"@);
    assert(IMPLIED_END_TAGS_THOROUGHLY@[10]@ == "rt"@);
    assert(IMPLIED_END_TAGS_THOROUGHLY@[11]@ == "rtc"@);
    assert(IMPLIED_END_TAGS_THOROUGHLY@[12]@ == "tbody"@);
    assert(IMPLIED_END_TAGS_THOROUGHLY@[13]@ == "td"@);
    assert(IMPLIED_END_TAGS_THOROUGHLY@[14]@ == "tfoot"@);
    assert(IMPLIED_END_TAGS_THOROUGHLY@[15]@ == "th"@);
    assert(IMPLIED_END_TAGS_THOROUGHLY@[16]@ == "thead"@);
    assert(IMPLIED_END_TAGS_THOROUGHLY@[17]@ == "tr"@);
    assert("colgroup"@[0] != "frameset"@[0]);
    assert("colgroup"@[0] != "template"@[0]);
    assert("dd"@[0] != "tr"@[0]);
    assert("dd"@[0] != "td"@[0]);
    assert("dd"@[0] != "th"@[0]);
    assert("dt"@[0] != "tr"@[0]);
    assert("dt"@[0] != "td"@[0]);
    assert("dt"@[0] != "th"@[0]);
    assert("li"@[0] != "tr"@[0]);
    assert("li"@[0] != "td"@[0]);
    assert("li"@[0] != "th"@[0]);
    assert("optgroup"@[0] != "frameset"@[0]);
    assert("optgroup"@[0] != "template"@[0]);
    assert("optgroup"@[0] != "colgroup"@[0]);
    assert("rb"@[0] != "tr"@[0]);
    assert("rb"@[0] != "td"@[0]);
    assert("rb"@[0] != "th"@[0]);
    assert("rp"@[0] != "tr"@[0]);
    assert("rp"@[0] != "td"@[0]);
    assert("rp"@[0] != "th"@[0]);
    assert("rt"@[0] != "tr"@[0]);
    assert("rt"@[0] != "td"@[0]);
    assert("rt"@[0] != "th"@[0]);
    assert("tbody"@[1] != "table"@[1]);
    assert("tbody"@[1] != "thead"@[1]);
    assert("tbody"@[1] != "tfoot"@[1]);
    assert("td"@[1] != "tr"@[1]);
    assert("td"@[1] != "th"@[1]);
    assert("tfoot"@[1] != "table"@[1]);
    assert("tfoot"@[1] != "thead"@[1]);
    assert("th"@[1] != "tr"@[1]);
    assert("thead"@[1] != "table"@[1]);
    assert("html"@[1] != "head"@[1]);
    assert("html"@[0] != "body"@[0]);
    assert("head"@[0] != "body"@[0]);
    assert("frameset"@[0] != "template"@[0]);
    assert("frameset"@[0] != "colgroup"@[0]);
    assert("template"@[0] != "colgroup"@[0]);
    assert("table"@[1] != "tbody"@[1]);
    assert("table"@[1] != "thead"@[1]);
    assert("table"@[1] != "tfoot"@[1]);
    assert("tbody"@[1] != "thead"@[1]);
    assert("tbody"@[1] != "tfoot"@[1]);
    assert("thead"@[1] != "tfoot"@[1]);
    assert("tr"@[1] != "td"@[1]);
    assert("tr"@[1] != "th"@[1]);
    assert("td"@[1] != "th"@[1]);
    if in_implied_end_tags_thoroughly(name) {
        let i = choose|i: int| 0 <= i < IMPLIED_END_TAGS_THOROUGHLY@.len()
            && (#[trigger] IMPLIED_END_TAGS_THOROUGHLY@[i])@ == name;
        assert(i == 0 || i == 1 || i == 2 || i == 3 || i == 4 || i == 5 || i == 6 || i == 7
            || i == 8 || i == 9 || i == 10 || i == 11 || i == 12 || i == 13 || i == 14 || i == 15
            || i == 16 || i == 17);
    }
}

/// The parts that names stand for.
pub proof fn lemma_part_names()
    ensures
        part_named("html"@) is Html,
        part_named("head"@) is Head,
        part_named("body"@) is Body,
        part_named("frameset"@) is Frameset,
        part_named("template"@) is Template,
        part_named("table"@) is Table,
        part_named("caption"@) is Caption,
        part_named("colgroup"@) is Columns,
        part_named("tbody"@) is Section,
        part_named("thead"@) is Section,
        part_named("tfoot"@) is Section,
        part_named("tr"@) is Row,
        part_named("td"@) is Cell,
        part_named("th"@) is Cell,
{
    reveal(part_named);
    reveal_strlit("body");
    reveal_strlit("caption");
    reveal_strlit("colgroup");
    reveal_strlit("frameset");
    reveal_strlit("head");
    reveal_strlit("html");
    reveal_strlit("table");
    reveal_strlit("tbody");
    reveal_strlit("td");
    reveal_strlit("template");
    reveal_strlit("tfoot");
    reveal_strlit("th");
    reveal_strlit("thead");
    reveal_strlit("tr");
    assert("body"@.len() == 4);
    assert("caption"@.len() == 7);
    assert("colgroup"@.len() == 8);
    assert("frameset"@.len() == 8);
    assert("head"@.len() == 4);
    assert("html"@.len() == 4);
    assert("table"@.len() == 5);
    assert("tbody"@.len() == 5);
    assert("td"@.len() == 2);
    assert("template"@.len() == 8);
    assert("tfoot"@.len() == 5);
    assert("th"@.len() == 2);
    assert("thead"@.len() == 5);
    assert("tr"@.len() == 2);
    assert("html"@[1] != "head"@[1]);
    assert("html"@[0] != "body"@[0]);
    assert("head"@[0] != "body"@[0]);
    assert("frameset"@[0] != "template"@[0]);
    assert("frameset"@[0] != "colgroup"@[0]);
    assert("template"@[0] != "colgroup"@[0]);
    assert("table"@[1] != "tbody"@[1]);
    assert("table"@[1] != "thead"@[1]);
    assert("table"@[1] != "tfoot"@[1]);
    assert("tbody"@[1] != "thead"@[1]);
    assert("tbody"@[1] != "tfoot"@[1]);
    assert("thead"@[1] != "tfoot"@[1]);
    assert("tr"@[1] != "td"@[1]);
    assert("tr"@[1] != "th"@[1]);
    assert("td"@[1] != "th"@[1]);
}

/// Names that stand for no part.
pub proof fn lemma_other_names_1()
    ensures
        part_named("pre"@) is Other,
        part_named("listing"@) is Other,
        part_named("form"@) is Other,
        part_named("li"@) is Other,
        part_named("dd"@) is Other,
        part_named("dt"@) is Other,
        part_named("plaintext"@) is Other,
        part_named("button"@) is Other,
{
    reveal(part_named);
    reveal_strlit("body");
    reveal_strlit("button");
    reveal_strlit("caption");
    reveal_strlit("colgroup");
    reveal_strlit("dd");
    reveal_strlit("dt");
    reveal_strlit("form");
    reveal_strlit("frameset");
    reveal_strlit("head");
    reveal_strlit("html");
    reveal_strlit("li");
    reveal_strlit("listing");
    reveal_strlit("plaintext");
    reveal_strlit("pre");
    reveal_strlit("table");
    reveal_strlit("tbody");
    reveal_strlit("td");
    reveal_strlit("template");
    reveal_strlit("tfoot");
    reveal_strlit("th");
    reveal_strlit("thead");
    reveal_strlit("tr");
    assert("body"@.len() == 4);
    assert("button"@.len() == 6);
    assert("caption"@.len() == 7);
    assert("colgroup"@.len() == 8);
    assert("dd"@.len() == 2);
    assert("dt"@.len() == 2);
    assert("form"@.len() == 4);
    assert("frameset"@.len() == 8);
    assert("head"@.len() == 4);
    assert("html"@.len() == 4);
    assert("li"@.len() == 2);
    assert("listing"@.len() == 7);
    assert("plaintext"@.len() == 9);
    assert("pre"@.len() == 3);
    assert("table"@.len() == 5);
    assert("tbody"@.len() == 5);
    assert("td"@.len() == 2);
    assert("template"@.len() == 8);
    assert("tfoot"@.len() == 5);
    assert("th"@.len() == 2);
    assert("thead"@.len() == 5);
    assert("tr"@.len() == 2);
    assert("listing"@[0] != "caption"@[0]);
    assert("form"@[0] != "html"@[0]);
    assert("form"@[0] != "head"@[0]);
    assert("form"@[0] != "body"@[0]);
    assert("li"@[0] != "tr"@[0]);
    assert("li"@[0] != "td"@[0]);
    assert("li"@[0] != "th"@[0]);
    assert("dd"@[0] != "tr"@[0]);
    assert("dd"@[0] != "td"@[0]);
    assert("dd"@[0] != "th"@[0]);
    assert("dt"@[0] != "tr"@[0]);
    assert("dt"@[0] != "td"@[0]);
    assert("dt"@[0] != "th"@[0]);
}

/// Names that stand for no part.
pub proof fn lemma_other_names_2()
    ensures
        part_named("a"@) is Other,
        part_named("nobr"@) is Other,
        part_named("input"@) is Other,
        part_named("hr"@) is Other,
        part_named("img"@) is Other,
        part_named("textarea"@) is Other,
        part_named("xmp"@) is Other,
        part_named("iframe"@) is Other,
{
    reveal(part_named);
    reveal_strlit("a");
    reveal_strlit("body");
    reveal_strlit("caption");
    reveal_strlit("colgroup");
    reveal_strlit("frameset");
    reveal_strlit("head");
    reveal_strlit("hr");
    reveal_strlit("html");
    reveal_strlit("iframe");
    reveal_strlit("img");
    reveal_strlit("input");
    reveal_strlit("nobr");
    reveal_strlit("table");
    reveal_strlit("tbody");
    reveal_strlit("td");
    reveal_strlit("template");
    reveal_strlit("textarea");
    reveal_strlit("tfoot");
    reveal_strlit("th");
    reveal_strlit("thead");
    reveal_strlit("tr");
    reveal_strlit("xmp");
    assert("a"@.len() == 1);
    assert("body"@.len() == 4);
    assert("caption"@.len() == 7);
    assert("colgroup"@.len() == 8);
    assert("frameset"@.len() == 8);
    assert("head"@.len() == 4);
    assert("hr"@.len() == 2);
    assert("html"@.len() == 4);
    assert("iframe"@.len() == 6);
    assert("img"@.len() == 3);
    assert("input"@.len() == 5);
    assert("nobr"@.len() == 4);
    assert("table"@.len() == 5);
    assert("tbody"@.len() == 5);
    assert("td"@.len() == 2);
    assert("template"@.len() == 8);
    assert("textarea"@.len() == 8);
    assert("tfoot"@.len() == 5);
    assert("th"@.len() == 2);
    assert("thead"@.len() == 5);
    assert("tr"@.len() == 2);
    assert("xmp"@.len() == 3);
    assert("nobr"@[0] != "html"@[0]);
    assert("nobr"@[0] != "head"@[0]);
    assert("nobr"@[0] != "body"@[0]);
    assert("input"@[0] != "table"@[0]);
    assert("input"@[0] != "tbody"@[0]);
    assert("input"@[0] != "thead"@[0]);
    assert("input"@[0] != "tfoot"@[0]);
    assert("hr"@[0] != "tr"@[0]);
    assert("hr"@[0] != "td"@[0]);
    assert("hr"@[0] != "th"@[0]);
    assert("textarea"@[0] != "frameset"@[0]);
    assert("textarea"@[2] != "template"@[2]);
    assert("textarea"@[0] != "colgroup"@[0]);
}

/// Names that stand for no part.
pub proof fn lemma_other_names_3()
    ensures
        part_named("noembed"@) is Other,
        part_named("select"@) is Other,
        part_named("option"@) is Other,
        part_named("optgroup"@) is Other,
        part_named("rb"@) is Other,
        part_named("rtc"@) is Other,
        part_named("rp"@) is Other,
        part_named("rt"@) is Other,
{
    reveal(part_named);
    reveal_strlit("body");
    reveal_strlit("caption");
    reveal_strlit("colgroup");
    reveal_strlit("frameset");
    reveal_strlit("head");
    reveal_strlit("html");
    reveal_strlit("noembed");
    reveal_strlit("optgroup");
    reveal_strlit("option");
    reveal_strlit("rb");
    reveal_strlit("rp");
    reveal_strlit("rt");
    reveal_strlit("rtc");
    reveal_strlit("select");
    reveal_strlit("table");
    reveal_strlit("tbody");
    reveal_strlit("td");
    reveal_strlit("template");
    reveal_strlit("tfoot");
    reveal_strlit("th");
    reveal_strlit("thead");
    reveal_strlit("tr");
    assert("body"@.len() == 4);
    assert("caption"@.len() == 7);
    assert("colgroup"@.len() == 8);
    assert("frameset"@.len() == 8);
    assert("head"@.len() == 4);
    assert("html"@.len() == 4);
    assert("noembed"@.len() == 7);
    assert("optgroup"@.len() == 8);
    assert("option"@.len() == 6);
    assert("rb"@.len() == 2);
    assert("rp"@.len() == 2);
    assert("rt"@.len() == 2);
    assert("rtc"@.len() == 3);
    assert("select"@.len() == 6);
    assert("table"@.len() == 5);
    assert("tbody"@.len() == 5);
    assert("td"@.len() == 2);
    assert("template"@.len() == 8);
    assert("tfoot"@.len() == 5);
    assert("th"@.len() == 2);
    assert("thead"@.len() == 5);
    assert("tr"@.len() == 2);
    assert("noembed"@[0] != "caption"@[0]);
    assert("optgroup"@[0] != "frameset"@[0]);
    assert("optgroup"@[0] != "template"@[0]);
    assert("optgroup"@[0] != "colgroup"@[0]);
    assert("rb"@[0] != "tr"@[0]);
    assert("rb"@[0] != "td"@[0]);
    assert("rb"@[0] != "th"@[0]);
    assert("rp"@[0] != "tr"@[0]);
    assert("rp"@[0] != "td"@[0]);
    assert("rp"@[0] != "th"@[0]);
    assert("rt"@[0] != "tr"@[0]);
    assert("rt"@[0] != "td"@[0]);
    assert("rt"@[0] != "th"@[0]);
}

/// Names that stand for no part.
pub proof fn lemma_other_names_4()
    ensures
        part_named("title"@) is Other,
        part_named("noframes"@) is Other,
        part_named("style"@) is Other,
        part_named("script"@) is Other,
        part_named("p"@) is Other,
        part_named("br"@) is Other,
        part_named("noscript"@) is Other,
        part_named("col"@) is Other,
{
    reveal(part_named);
    reveal_strlit("body");
    reveal_strlit("br");
    reveal_strlit("caption");
    reveal_strlit("col");
    reveal_strlit("colgroup");
    reveal_strlit("frameset");
    reveal_strlit("head");
    reveal_strlit("html");
    reveal_strlit("noframes");
    reveal_strlit("noscript");
    reveal_strlit("p");
    reveal_strlit("script");
    reveal_strlit("style");
    reveal_strlit("table");
    reveal_strlit("tbody");
    reveal_strlit("td");
    reveal_strlit("template");
    reveal_strlit("tfoot");
    reveal_strlit("th");
    reveal_strlit("thead");
    reveal_strlit("title");
    reveal_strlit("tr");
    assert("body"@.len() == 4);
    assert("br"@.len() == 2);
    assert("caption"@.len() == 7);
    assert("col"@.len() == 3);
    assert("colgroup"@.len() == 8);
    assert("frameset"@.len() == 8);
    assert("head"@.len() == 4);
    assert("html"@.len() == 4);
    assert("noframes"@.len() == 8);
    assert("noscript"@.len() == 8);
    assert("p"@.len() == 1);
    assert("script"@.len() == 6);
    assert("style"@.len() == 5);
    assert("table"@.len() == 5);
    assert("tbody"@.len() == 5);
    assert("td"@.len() == 2);
    assert("template"@.len() == 8);
    assert("tfoot"@.len() == 5);
    assert("th"@.len() == 2);
    assert("thead"@.len() == 5);
    assert("title"@.len() == 5);
    assert("tr"@.len() == 2);
    assert("title"@[1] != "table"@[1]);
    assert("title"@[1] != "tbody"@[1]);
    assert("title"@[1] != "thead"@[1]);
    assert("title"@[1] != "tfoot"@[1]);
    assert("noframes"@[0] != "frameset"@[0]);
    assert("noframes"@[0] != "template"@[0]);
    assert("noframes"@[0] != "colgroup"@[0]);
    assert("style"@[0] != "table"@[0]);
    assert("style"@[0] != "tbody"@[0]);
    assert("style"@[0] != "thead"@[0]);
    assert("style"@[0] != "tfoot"@[0]);
    assert("br"@[0] != "tr"@[0]);
    assert("br"@[0] != "td"@[0]);
    assert("br"@[0] != "th"@[0]);
    assert("noscript"@[0] != "frameset"@[0]);
    assert("noscript"@[0] != "template"@[0]);
    assert("noscript"@[0] != "colgroup"@[0]);
}

/// Names that stand for no part.
pub proof fn lemma_other_names_5()
    ensures
        part_named("frame"@) is Other,
{
    reveal(part_named);
    reveal_strlit("body");
    reveal_strlit("caption");
    reveal_strlit("colgroup");
    reveal_strlit("frame");
    reveal_strlit("frameset");
    reveal_strlit("head");
    reveal_strlit("html");
    reveal_strlit("table");
    reveal_strlit("tbody");
    reveal_strlit("td");
    reveal_strlit("template");
    reveal_strlit("tfoot");
    reveal_strlit("th");
    reveal_strlit("thead");
    reveal_strlit("tr");
    assert("body"@.len() == 4);
    assert("caption"@.len() == 7);
    assert("colgroup"@.len() == 8);
    assert("frame"@.len() == 5);
    assert("frameset"@.len() == 8);
    assert("head"@.len() == 4);
    assert("html"@.len() == 4);
    assert("table"@.len() == 5);
    assert("tbody"@.len() == 5);
    assert("td"@.len() == 2);
    assert("template"@.len() == 8);
    assert("tfoot"@.len() == 5);
    assert("th"@.len() == 2);
    assert("thead"@.len() == 5);
    assert("tr"@.len() == 2);
    assert("frame"@[0] != "table"@[0]);
    assert("frame"@[0] != "tbody"@[0]);
    assert("frame"@[0] != "thead"@[0]);
    assert("frame"@[0] != "tfoot"@[0]);
}

/// The end tags of these elements are not implied.
pub proof fn lemma_not_implied()
    ensures
        !in_implied_end_tags("form"@),
        !in_implied_end_tags("button"@),
        !in_implied_end_tags("select"@),
{
    reveal(in_implied_end_tags);
    reveal_strlit("button");
    reveal_strlit("dd");
    reveal_strlit("dt");
    reveal_strlit("form");
    reveal_strlit("li");
    reveal_strlit("optgroup");
    reveal_strlit("option");
    reveal_strlit("p");
    reveal_strlit("rb");
    reveal_strlit("rp");
    reveal_strlit("rt");
    reveal_strlit("rtc");
    reveal_strlit("select");
    assert("button"@.len() == 6);
    assert("dd"@.len() == 2);
    assert("dt"@.len() == 2);
    assert("form"@.len() == 4);
    assert("li"@.len() == 2);
    assert("optgroup"@.len() == 8);
    assert("option"@.len() == 6);
    assert("p"@.len() == 1);
    assert("rb"@.len() == 2);
    assert("rp"@.len() == 2);
    assert("rt"@.len() == 2);
    assert("rtc"@.len() == 3);
    assert("select"@.len() == 6);
    assert(IMPLIED_END_TAGS@.len() == 10);
    assert(IMPLIED_END_TAGS@[0]@ == "dd"@);
    assert(IMPLIED_END_TAGS@[1]@ == "dt"@);
    assert(IMPLIED_END_TAGS@[2]@ == "li"@);
    assert(IMPLIED_END_TAGS@[3]@ == "optgroup"@);
    assert(IMPLIED_END_TAGS@[4]@ == "option"@);
    assert(IMPLIED_END_TAGS@[5]@ == "p"@);
    assert(IMPLIED_END_TAGS@[6]@ == "rb"@);
    assert(IMPLIED_END_TAGS@[7]@ == "rp"@);
    assert(IMPLIED_END_TAGS@[8]@ == "rt"@);
    assert(IMPLIED_END_TAGS@[9]@ == "rtc"@);
    assert("button"@[0] != "option"@[0]);
    assert("select"@[0] != "option"@[0]);
    if in_implied_end_tags("form"@) {
        let i = choose|i: int|
            0 <= i < IMPLIED_END_TAGS@.len() && (#[trigger] IMPLIED_END_TAGS@[i])@ == "form"@;
        assert(i == 0 || i == 1 || i == 2 || i == 3 || i == 4 || i == 5 || i == 6 || i == 7
            || i == 8 || i == 9);
    }
    if in_implied_end_tags("button"@) {
        let i = choose|i: int|
            0 <= i < IMPLIED_END_TAGS@.len() && (#[trigger] IMPLIED_END_TAGS@[i])@ == "button"@;
        assert(i == 0 || i == 1 || i == 2 || i == 3 || i == 4 || i == 5 || i == 6 || i == 7
            || i == 8 || i == 9);
    }
    if in_implied_end_tags("select"@) {
        let i = choose|i: int|
            0 <= i < IMPLIED_END_TAGS@.len() && (#[trigger] IMPLIED_END_TAGS@[i])@ == "select"@;
        assert(i == 0 || i == 1 || i == 2 || i == 3 || i == 4 || i == 5 || i == 6 || i == 7
            || i == 8 || i == 9);
    }
}

/// Only the names of parts stand for parts.
pub proof fn lemma_part_named(name: Seq<char>)
    ensures
        part_named(name) is Html <==> name == "html"@,
        part_named(name) is Head <==> name == "head"@,
        part_named(name) is Body <==> name == "body"@,
        part_named(name) is Frameset <==> name == "frameset"@,
        part_named(name) is Template <==> name == "template"@,
        part_named(name) is Table <==> name == "table"@,
        part_named(name) is Caption <==> name == "caption"@,
        part_named(name) is Columns <==> name == "colgroup"@,
        part_named(name) is Section <==> name == "tbody"@ || name == "thead"@ || name
            == "tfoot"@,
        part_named(name) is Row <==> name == "tr"@,
        part_named(name) is Cell <==> name == "td"@ || name == "th"@,
{
    lemma_part_names();
    reveal(part_named);
}

/// A part ends every search for an element without a rule of its own, and the outer
/// parts of tables bound every scope.
pub proof fn lemma_part_bounds(kind: KindModel, scope: Scope)
    ensures
        !(part_of(kind) is Other) ==> special_kind(kind),
        part_of(kind) is Html || part_of(kind) is Table || part_of(kind) is Template
            ==> bounds_scope(kind, scope),
{
    reveal(special_kind);
    reveal(bounds_scope);
    match html_name(kind) {
        Some(name) => {
            lemma_special(name);
            lemma_default_scope(name);
            lemma_table_scope(name);
        },
        None => {},
    }
}

/// The groups of parts.
pub proof fn lemma_part_groups(kind: KindModel)
    ensures
        kind_in_group(kind, Group::TableContext) <==> part_of(kind) is Html || part_of(kind)
            is Table || part_of(kind) is Template,
        kind_in_group(kind, Group::TableBodyContext) <==> part_of(kind) is Html || part_of(kind)
            is Section || part_of(kind) is Template,
        kind_in_group(kind, Group::TableRowContext) <==> part_of(kind) is Html || part_of(kind)
            is Row || part_of(kind) is Template,
        kind_in_group(kind, Group::Cells) <==> part_of(kind) is Cell,
        kind_in_group(kind, Group::TableSections) <==> part_of(kind) is Section,
        kind_in_group(kind, Group::FosterTargets) ==> part_of(kind) is Table || part_of(kind)
            is Section || part_of(kind) is Row,
        kind_in_group(kind, Group::Headings) ==> part_of(kind) is Other,
        kind_in_group(kind, Group::ImpliedEndTags) ==> part_of(kind) is Other,
        kind_in_group(kind, Group::ImpliedEndTagsThoroughly) ==> !(part_of(kind) is Html)
            && !(part_of(kind) is Head) && !(part_of(kind) is Body) && !(part_of(kind) is Frameset)
            && !(part_of(kind) is Template) && !(part_of(kind) is Table),
{
    match html_name(kind) {
        Some(name) => {
            lemma_table_context(name);
            lemma_table_body_context(name);
            lemma_table_row_context(name);
            lemma_cells(name);
            lemma_table_sections(name);
            lemma_foster_targets(name);
            lemma_headings(name);
            lemma_implied_end_tags(name);
            lemma_implied_end_tags_thoroughly(name);
        },
        None => {},
    }
}

/// Which tags of the head make an element without content, text or a template.
pub proof fn lemma_head_content(name: Seq<char>)
    ensures
        in_head_content(name) ==> in_head_void(name) || name == "noframes"@ || name == "script"@
            || name == "style"@ || name == "template"@ || name == "title"@,
        in_in_table_head_content(name) ==> name == "script"@ || name == "style"@ || name
            == "template"@,
        in_head_noscript_content(name) ==> in_head_void(name) || name == "noframes"@ || name
            == "style"@,
        in_head_content("template"@),
{
    reveal(in_head_content);
    assert(HEAD_CONTENT@.len() == 10);
    assert(HEAD_CONTENT@[0]@ == "base"@);
    assert(HEAD_CONTENT@[1]@ == "basefont"@);
    assert(HEAD_CONTENT@[2]@ == "bgsound"@);
    assert(HEAD_CONTENT@[3]@ == "link"@);
    assert(HEAD_CONTENT@[4]@ == "meta"@);
    assert(HEAD_CONTENT@[5]@ == "noframes"@);
    assert(HEAD_CONTENT@[6]@ == "script"@);
    assert(HEAD_CONTENT@[7]@ == "style"@);
    assert(HEAD_CONTENT@[8]@ == "template"@);
    assert(HEAD_CONTENT@[9]@ == "title"@);
    reveal(in_head_void);
    assert(HEAD_VOID@.len() == 5);
    assert(HEAD_VOID@[0]@ == "base"@);
    assert(HEAD_VOID@[1]@ == "basefont"@);
    assert(HEAD_VOID@[2]@ == "bgsound"@);
    assert(HEAD_VOID@[3]@ == "link"@);
    assert(HEAD_VOID@[4]@ == "meta"@);
    reveal(in_in_table_head_content);
    assert(IN_TABLE_HEAD_CONTENT@.len() == 3);
    assert(IN_TABLE_HEAD_CONTENT@[0]@ == "style"@);
    assert(IN_TABLE_HEAD_CONTENT@[1]@ == "script"@);
    assert(IN_TABLE_HEAD_CONTENT@[2]@ == "template"@);
    reveal(in_head_noscript_content);
    assert(HEAD_NOSCRIPT_CONTENT@.len() == 6);
    assert(HEAD_NOSCRIPT_CONTENT@[0]@ == "basefont"@);
    assert(HEAD_NOSCRIPT_CONTENT@[1]@ == "bgsound"@);
    assert(HEAD_NOSCRIPT_CONTENT@[2]@ == "link"@);
    assert(HEAD_NOSCRIPT_CONTENT@[3]@ == "meta"@);
    assert(HEAD_NOSCRIPT_CONTENT@[4]@ == "noframes"@);
    assert(HEAD_NOSCRIPT_CONTENT@[5]@ == "style"@);
    if in_head_content(name) {
        let i = choose|i: int| 0 <= i < HEAD_CONTENT@.len()
            && (#[trigger] HEAD_CONTENT@[i])@ == name;
        assert(i == 0 || i == 1 || i == 2 || i == 3 || i == 4 || i == 5 || i == 6 || i == 7
            || i == 8 || i == 9);
    }
    if in_in_table_head_content(name) {
        let i = choose|i: int| 0 <= i < IN_TABLE_HEAD_CONTENT@.len()
            && (#[trigger] IN_TABLE_HEAD_CONTENT@[i])@ == name;
        assert(i == 0 || i == 1 || i == 2);
    }
    if in_head_noscript_content(name) {
        let i = choose|i: int| 0 <= i < HEAD_NOSCRIPT_CONTENT@.len()
            && (#[trigger] HEAD_NOSCRIPT_CONTENT@[i])@ == name;
        assert(i == 0 || i == 1 || i == 2 || i == 3 || i == 4 || i == 5);
    }
}

/// The names of parts that have no place in the body on their own, or that tables and
/// cells take no end tags of.
pub proof fn lemma_misplaced()
    ensures
        in_misplaced_in_body("head"@),
        in_in_table_ignored_ends("html"@),
        in_in_table_ignored_ends("body"@),
        in_in_cell_ignored_ends("html"@),
        in_in_cell_ignored_ends("body"@),
        in_in_cell_ignored_ends("caption"@),
        in_in_cell_ignored_ends("colgroup"@),
        in_cell_closing_ends("table"@),
        in_cell_closing_ends("tbody"@),
        in_cell_closing_ends("thead"@),
        in_cell_closing_ends("tfoot"@),
        in_cell_closing_ends("tr"@),
        in_misplaced_in_body("caption"@),
        in_in_table_ignored_ends("caption"@),
        in_misplaced_in_body("colgroup"@),
        in_in_table_ignored_ends("colgroup"@),
        in_misplaced_in_body("tbody"@),
        in_in_table_ignored_ends("tbody"@),
        in_misplaced_in_body("thead"@),
        in_in_table_ignored_ends("thead"@),
        in_misplaced_in_body("tfoot"@),
        in_in_table_ignored_ends("tfoot"@),
        in_misplaced_in_body("tr"@),
        in_in_table_ignored_ends("tr"@),
        in_misplaced_in_body("td"@),
        in_in_table_ignored_ends("td"@),
        in_misplaced_in_body("th"@),
        in_in_table_ignored_ends("th"@),
{
    reveal(in_misplaced_in_body);
    assert(MISPLACED_IN_BODY@.len() == 11);
    assert(MISPLACED_IN_BODY@[0]@ == "caption"@);
    assert(MISPLACED_IN_BODY@[1]@ == "col"@);
    assert(MISPLACED_IN_BODY@[2]@ == "colgroup"@);
    assert(MISPLACED_IN_BODY@[3]@ == "frame"@);
    assert(MISPLACED_IN_BODY@[4]@ == "head"@);
    assert(MISPLACED_IN_BODY@[5]@ == "tbody"@);
    assert(MISPLACED_IN_BODY@[6]@ == "td"@);
    assert(MISPLACED_IN_BODY@[7]@ == "tfoot"@);
    assert(MISPLACED_IN_BODY@[8]@ == "th"@);
    assert(MISPLACED_IN_BODY@[9]@ == "thead"@);
    assert(MISPLACED_IN_BODY@[10]@ == "tr"@);
    reveal(in_in_table_ignored_ends);
    assert(IN_TABLE_IGNORED_ENDS@.len() == 11);
    assert(IN_TABLE_IGNORED_ENDS@[0]@ == "body"@);
    assert(IN_TABLE_IGNORED_ENDS@[1]@ == "caption"@);
    assert(IN_TABLE_IGNORED_ENDS@[2]@ == "col"@);
    assert(IN_TABLE_IGNORED_ENDS@[3]@ == "colgroup"@);
    assert(IN_TABLE_IGNORED_ENDS@[4]@ == "html"@);
    assert(IN_TABLE_IGNORED_ENDS@[5]@ == "tbody"@);
    assert(IN_TABLE_IGNORED_ENDS@[6]@ == "td"@);
    assert(IN_TABLE_IGNORED_ENDS@[7]@ == "tfoot"@);
    assert(IN_TABLE_IGNORED_ENDS@[8]@ == "th"@);
    assert(IN_TABLE_IGNORED_ENDS@[9]@ == "thead"@);
    assert(IN_TABLE_IGNORED_ENDS@[10]@ == "tr"@);
    reveal(in_in_cell_ignored_ends);
    assert(IN_CELL_IGNORED_ENDS@.len() == 5);
    assert(IN_CELL_IGNORED_ENDS@[0]@ == "body"@);
    assert(IN_CELL_IGNORED_ENDS@[1]@ == "caption"@);
    assert(IN_CELL_IGNORED_ENDS@[2]@ == "col"@);
    assert(IN_CELL_IGNORED_ENDS@[3]@ == "colgroup"@);
    assert(IN_CELL_IGNORED_ENDS@[4]@ == "html"@);
    reveal(in_cell_closing_ends);
    assert(CELL_CLOSING_ENDS@.len() == 5);
    assert(CELL_CLOSING_ENDS@[0]@ == "table"@);
    assert(CELL_CLOSING_ENDS@[1]@ == "tbody"@);
    assert(CELL_CLOSING_ENDS@[2]@ == "tfoot"@);
    assert(CELL_CLOSING_ENDS@[3]@ == "thead"@);
    assert(CELL_CLOSING_ENDS@[4]@ == "tr"@);
}

/// Headings are not among the elements whose end tags are implied.
pub proof fn lemma_headings_not_implied(name: Seq<char>)
    requires
        in_headings(name),
    ensures
        !in_implied_end_tags(name),
{
    reveal(in_headings);
    reveal(in_implied_end_tags);
    reveal_strlit("dd");
    reveal_strlit("dt");
    reveal_strlit("h1");
    reveal_strlit("h2");
    reveal_strlit("h3");
    reveal_strlit("h4");
    reveal_strlit("h5");
    reveal_strlit("h6");
    reveal_strlit("li");
    reveal_strlit("optgroup");
    reveal_strlit("option");
    reveal_strlit("p");
    reveal_strlit("rb");
    reveal_strlit("rp");
    reveal_strlit("rt");
    reveal_strlit("rtc");
    assert("dd"@.len() == 2);
    assert("dt"@.len() == 2);
    assert("h1"@.len() == 2);
    assert("h2"@.len() == 2);
    assert("h3"@.len() == 2);
    assert("h4"@.len() == 2);
    assert("h5"@.len() == 2);
    assert("h6"@.len() == 2);
    assert("li"@.len() == 2);
    assert("optgroup"@.len() == 8);
    assert("option"@.len() == 6);
    assert("p"@.len() == 1);
    assert("rb"@.len() == 2);
    assert("rp"@.len() == 2);
    assert("rt"@.len() == 2);
    assert("rtc"@.len() == 3);
    assert(HEADINGS@.len() == 6);
    assert(IMPLIED_END_TAGS@.len() == 10);
    assert(HEADINGS@[0]@ == "h1"@);
    assert(HEADINGS@[1]@ == "h2"@);
    assert(HEADINGS@[2]@ == "h3"@);
    assert(HEADINGS@[3]@ == "h4"@);
    assert(HEADINGS@[4]@ == "h5"@);
    assert(HEADINGS@[5]@ == "h6"@);
    assert(IMPLIED_END_TAGS@[0]@ == "dd"@);
    assert(IMPLIED_END_TAGS@[1]@ == "dt"@);
    assert(IMPLIED_END_TAGS@[2]@ == "li"@);
    assert(IMPLIED_END_TAGS@[3]@ == "optgroup"@);
    assert(IMPLIED_END_TAGS@[4]@ == "option"@);
    assert(IMPLIED_END_TAGS@[5]@ == "p"@);
    assert(IMPLIED_END_TAGS@[6]@ == "rb"@);
    assert(IMPLIED_END_TAGS@[7]@ == "rp"@);
    assert(IMPLIED_END_TAGS@[8]@ == "rt"@);
    assert(IMPLIED_END_TAGS@[9]@ == "rtc"@);
    assert("h1"@[0] != "dd"@[0]);
    assert("h1"@[0] != "dt"@[0]);
    assert("h1"@[0] != "li"@[0]);
    assert("h1"@[0] != "rb"@[0]);
    assert("h1"@[0] != "rp"@[0]);
    assert("h1"@[0] != "rt"@[0]);
    assert("h2"@[0] != "dd"@[0]);
    assert("h2"@[0] != "dt"@[0]);
    assert("h2"@[0] != "li"@[0]);
    assert("h2"@[0] != "rb"@[0]);
    assert("h2"@[0] != "rp"@[0]);
    assert("h2"@[0] != "rt"@[0]);
    assert("h3"@[0] != "dd"@[0]);
    assert("h3"@[0] != "dt"@[0]);
    assert("h3"@[0] != "li"@[0]);
    assert("h3"@[0] != "rb"@[0]);
    assert("h3"@[0] != "rp"@[0]);
    assert("h3"@[0] != "rt"@[0]);
    assert("h4"@[0] != "dd"@[0]);
    assert("h4"@[0] != "dt"@[0]);
    assert("h4"@[0] != "li"@[0]);
    assert("h4"@[0] != "rb"@[0]);
    assert("h4"@[0] != "rp"@[0]);
    assert("h4"@[0] != "rt"@[0]);
    assert("h5"@[0] != "dd"@[0]);
    assert("h5"@[0] != "dt"@[0]);
    assert("h5"@[0] != "li"@[0]);
    assert("h5"@[0] != "rb"@[0]);
    assert("h5"@[0] != "rp"@[0]);
    assert("h5"@[0] != "rt"@[0]);
    assert("h6"@[0] != "dd"@[0]);
    assert("h6"@[0] != "dt"@[0]);
    assert("h6"@[0] != "li"@[0]);
    assert("h6"@[0] != "rb"@[0]);
    assert("h6"@[0] != "rp"@[0]);
    assert("h6"@[0] != "rt"@[0]);
    if in_headings(name) {
        let i = choose|i: int| 0 <= i < HEADINGS@.len() && (#[trigger] HEADINGS@[i])@ == name;
        assert(i == 0 || i == 1 || i == 2 || i == 3 || i == 4 || i == 5);
    }
    if in_implied_end_tags(name) {
        let i = choose|i: int| 0 <= i < IMPLIED_END_TAGS@.len()
            && (#[trigger] IMPLIED_END_TAGS@[i])@ == name;
        assert(i == 0 || i == 1 || i == 2 || i == 3 || i == 4 || i == 5 || i == 6 || i == 7
            || i == 8 || i == 9);
    }
}

} // verus!
