//! Why handling a token comes to an end: each time the rules of another
//! insertion mode are asked, a measure has become smaller.
use vstd::prelude::*;

use crate::token::TokenKindModel;
use crate::tree_builder::model::{can_resume, BuilderModel, InsertionMode};

verus! {

/// A mode that is left as soon as a token other than a character comes.
pub open spec fn phase(mode: InsertionMode, kind: TokenKindModel) -> int {
    if can_resume(mode) || kind is Character {
        0
    } else {
        1
    }
}

/// The end tag of the `html` element.
pub open spec fn is_html_end_tag(kind: TokenKindModel) -> bool {
    kind matches TokenKindModel::EndTag(tag) && tag.name == "html"@
}

/// The start tag of a column.
pub open spec fn is_column_start_tag(kind: TokenKindModel) -> bool {
    kind matches TokenKindModel::StartTag(tag) && tag.name == "col"@
}

/// The start tag of a cell.
pub open spec fn is_cell_start_tag(kind: TokenKindModel) -> bool {
    kind matches TokenKindModel::StartTag(tag) && (tag.name == "td"@ || tag.name == "th"@)
}

/// The start tag of a row.
pub open spec fn is_row_start_tag(kind: TokenKindModel) -> bool {
    kind matches TokenKindModel::StartTag(tag) && tag.name == "tr"@
}

/// How far the rules of a mode are from using up a token. Opening an element on
/// the way costs one.
pub open spec fn rank(mode: InsertionMode, kind: TokenKindModel) -> int {
    let column = is_column_start_tag(kind);
    let cell = is_cell_start_tag(kind);
    let row = is_row_start_tag(kind);
    match mode {
        InsertionMode::InTemplate => 11,
        InsertionMode::Initial => 10,
        InsertionMode::BeforeHtml => 9,
        InsertionMode::BeforeHead => 7,
        InsertionMode::InHeadNoscript => 6,
        InsertionMode::InHead => 5,
        InsertionMode::AfterHead => 4,
        InsertionMode::AfterAfterBody => 4,
        InsertionMode::AfterBody => if is_html_end_tag(kind) {
            1
        } else {
            3
        },
        InsertionMode::InBody => 2,
        InsertionMode::InTable => if cell {
            4
        } else {
            2
        },
        InsertionMode::InCaption | InsertionMode::InColumnGroup => if cell {
            5
        } else if column && mode is InColumnGroup {
            0
        } else {
            3
        },
        InsertionMode::InTableBody => if cell {
            2
        } else if row {
            0
        } else {
            3
        },
        InsertionMode::InRow => if cell {
            0
        } else if row {
            2
        } else {
            4
        },
        InsertionMode::InCell => if cell {
            1
        } else if row {
            3
        } else {
            5
        },
        _ => 0,
    }
}

/// The rules of tables bring the token further in this mode.
pub open spec fn comes_to_table(mode: InsertionMode, kind: TokenKindModel) -> bool {
    match mode {
        InsertionMode::InTable => true,
        InsertionMode::InRow => !is_cell_start_tag(kind),
        InsertionMode::InTableBody => !is_cell_start_tag(kind) && !is_row_start_tag(kind),
        _ => false,
    }
}

impl BuilderModel {
    /// On the way to `next` the measure became smaller: a mode that only waits
    /// for the end of a text was left, or else a `table` or `template` was
    /// closed, or else the token got nearer to the rules that use it up.
    pub open spec fn advances(self, next: Self, kind: TokenKindModel) -> bool {
        let before = phase(self.insertion_mode, kind);
        let after = phase(next.insertion_mode, kind);
        ||| after < before
        ||| after == before && next.open_tables() < self.open_tables()
        ||| after == before && next.open_tables() == self.open_tables()
            && next.open_elements.len() + rank(next.insertion_mode, kind)
            < self.open_elements.len() + rank(self.insertion_mode, kind)
    }

    /// A `table` or a `template` was closed.
    pub open spec fn closes_a_table(self, next: Self) -> bool {
        next.open_tables() < self.open_tables() && can_resume(next.insertion_mode)
    }

    /// The end tag of the `html` element leaves the body.
    pub open spec fn leaves_body(self, next: Self, kind: TokenKindModel) -> bool {
        is_html_end_tag(kind) && next.insertion_mode is AfterBody && self.opens_nothing(next)
    }
}

/// Some names that the measure tells apart.
pub proof fn lemma_names_differ()
    ensures
        "col"@ != "td"@,
        "col"@ != "th"@,
        "col"@ != "tr"@,
        "td"@ != "tr"@,
        "th"@ != "tr"@,
        "tbody"@ != "table"@,
        "tbody"@ != "template"@,
        "colgroup"@ != "table"@,
        "colgroup"@ != "template"@,
        "tr"@ != "table"@,
        "tr"@ != "template"@,
        "html"@ != "table"@,
        "html"@ != "template"@,
        "head"@ != "table"@,
        "head"@ != "template"@,
        "body"@ != "table"@,
        "body"@ != "template"@,
{
    reveal_strlit("col");
    reveal_strlit("td");
    reveal_strlit("th");
    reveal_strlit("tr");
    reveal_strlit("tbody");
    reveal_strlit("table");
    reveal_strlit("template");
    reveal_strlit("colgroup");
    reveal_strlit("html");
    reveal_strlit("head");
    reveal_strlit("body");
    assert("td"@[1] != "tr"@[1]);
    assert("th"@[1] != "tr"@[1]);
    assert("tbody"@[1] != "table"@[1]);
    assert("colgroup"@[0] != "template"@[0]);
}

} // verus!
