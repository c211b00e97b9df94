//! Where the text of a table goes.
use vstd::prelude::*;

use crate::document::laws::lemma_not_own_parent;
use crate::document::model::{DocumentModel, NodeId};
use crate::text::is_whitespace;
use crate::token::{ParseErrorKind, Position, TokenKindModel};
use crate::tree_builder::elements::{html_name, Group};
use crate::tree_builder::laws::{lemma_character_inserted, only_text_changes, text_at};
use crate::tree_builder::model::{closed_from, BuilderModel, InsertionLocation};
use crate::tree_builder::stack::{last_named, lemma_last_named};
use crate::tree_builder::steps::first_visible;

verus! {

/// The characters of a run, in their order.
pub open spec fn chars_of(tokens: Seq<(char, Position)>) -> Seq<char> {
    Seq::new(tokens.len(), |i: int| tokens[i].0)
}

/// The node right before the place is text.
pub open spec fn after_text(t: BuilderModel, location: InsertionLocation) -> bool {
    t.node_before(location) matches Some(node) && t.document.kind(node) is Text
}

/// There is room for the text of a run.
pub open spec fn has_room(t: BuilderModel, location: InsertionLocation) -> bool {
    t.document.nodes.len() + 1 < usize::MAX || t.document.nodes.len() < usize::MAX && after_text(
        t,
        location,
    )
}

/// Changes of the text at one place add up.
proof fn lemma_text_changes_twice(
    d: DocumentModel,
    e: DocumentModel,
    f: DocumentModel,
    location: InsertionLocation,
)
    requires
        d.nodes.len() < usize::MAX,
        d.has(location.parent),
        only_text_changes(d, e, location),
        only_text_changes(e, f, location),
        f.nodes.len() == e.nodes.len(),
    ensures
        only_text_changes(d, f, location),
{
    assert forall|id: NodeId| d.has(id) && !(d.kind(id) is Text) && id
        != location.parent implies #[trigger] f.node(id) == d.node(id) by {
        assert(e.node(id) == d.node(id));
    }
    assert forall|id: NodeId| d.has(id) && d.kind(id) is Text && id != location.parent implies (
    #[trigger] f.node(id)).kind is Text && f.node(id).position == d.node(id).position && f.node(
        id,
    ).parent == d.node(id).parent && f.node(id).children == d.node(id).children by {
        assert(e.node(id).kind is Text);
    }
    if e.nodes.len() > d.nodes.len() {
        assert(e.has(d.next_id()));
        assert(e.kind(d.next_id()) is Text);
        assert(f.node(d.next_id()).kind is Text);
    }
}

/// The place where a character of a run goes.
pub open spec fn place_of(t: BuilderModel, foster: bool) -> InsertionLocation {
    t.set_foster_parenting(foster).location(None)
}

/// What inserting a run does.
spec fn run_inserted(
    t: BuilderModel,
    u: BuilderModel,
    chars: Seq<char>,
    location: InsertionLocation,
) -> bool {
    &&& u.document.wf()
    &&& u.sound()
    &&& u.open_elements == t.open_elements
    &&& u.formatting == t.formatting
    &&& u.foster_parenting == t.foster_parenting
    &&& u.errors == t.errors
    &&& u.insertion_mode == t.insertion_mode
    &&& u.original_insertion_mode == t.original_insertion_mode
    &&& u.pending_table_character_tokens == t.pending_table_character_tokens
    &&& text_at(u, location) == text_at(t, location) + chars
    &&& only_text_changes(t.document, u.document, location)
    &&& after_text(t, location) ==> u.document.nodes.len() == t.document.nodes.len()
}

/// One character of a run.
proof fn lemma_one_inserted(t: BuilderModel, c: char, position: Position, foster: bool)
    requires
        t.document.wf(),
        t.sound(),
        !t.foster_parenting,
        t.document.nodes.len() < usize::MAX,
        place_of(t, foster).parent != t.document.root,
        foster ==> c != '\0' && closed_from(t.formatting, t.open_elements)
            == t.formatting.len(),
    ensures
        ({
            let v = t.at(position);
            let u = if foster {
                v.set_foster_parenting(true).in_body_char(c).0.set_foster_parenting(false)
            } else {
                v.char_here(c)
            };
            &&& run_inserted(t, u, seq![c], place_of(t, foster))
            &&& place_of(u, foster) == place_of(t, foster)
            &&& after_text(u, place_of(t, foster))
        }),
{
    let v = t.at(position).set_foster_parenting(foster);
    assert(v.sound()) by {
        reveal(BuilderModel::sound);
    }
    let location = place_of(t, foster);
    assert(v.location(None) == location) by {
        reveal(BuilderModel::location);
    }
    lemma_character_inserted(v, c, Some(position));
    let w = v.insert_character(c, Some(position));
    if foster {
        assert(v.reconstruct_formatting() == v) by {
            reveal(BuilderModel::reconstruct_formatting);
        }
        reveal(BuilderModel::in_body_char);
        let u = v.in_body_char(c).0.set_foster_parenting(false);
        assert(u.document == w.document);
        assert(u.sound()) by {
            reveal(BuilderModel::sound);
        }
        assert(place_of(u, foster) == w.location(None)) by {
            reveal(BuilderModel::location);
        }
        assert(text_at(u, location) == text_at(w, location));
    } else {
        assert(v == t.at(position));
        assert(place_of(w, foster) == w.location(None)) by {
            reveal(BuilderModel::location);
        }
    }
    assert(text_at(v, location) == text_at(t, location));
    assert(text_at(t, location).push(c) == text_at(t, location) + seq![c]);
}

/// A run goes to one place, whole and in its order.
proof fn lemma_run_inserted(t: BuilderModel, tokens: Seq<(char, Position)>, i: int, foster: bool)
    requires
        t.document.wf(),
        t.sound(),
        !t.foster_parenting,
        0 <= i <= tokens.len(),
        t.document.has(place_of(t, foster).parent),
        place_of(t, foster).parent != t.document.root,
        has_room(t, place_of(t, foster)),
        foster ==> closed_from(t.formatting, t.open_elements) == t.formatting.len(),
        foster ==> forall|k: int| 0 <= k < tokens.len() ==> (#[trigger] tokens[k]).0 != '\0',
    ensures
        run_inserted(
            t,
            t.insert_held_back(tokens, i, foster),
            chars_of(tokens.skip(i)),
            place_of(t, foster),
        ),
    decreases tokens.len() - i,
{
    let location = place_of(t, foster);
    if i < tokens.len() {
        let c = tokens[i].0;
        let v = t.at(tokens[i].1);
        let u = if foster {
            v.set_foster_parenting(true).in_body_char(c).0.set_foster_parenting(false)
        } else {
            v.char_here(c)
        };
        lemma_one_inserted(t, c, tokens[i].1, foster);
        lemma_run_inserted(u, tokens, i + 1, foster);
        let w = u.insert_held_back(tokens, i + 1, foster);
        lemma_text_changes_twice(t.document, u.document, w.document, location);
        assert(text_at(t, location) + seq![c] + chars_of(tokens.skip(i + 1)) == text_at(t, location)
            + chars_of(tokens.skip(i)));
    } else {
        assert(chars_of(tokens.skip(i)) == Seq::<char>::empty());
        assert(text_at(t, location) + Seq::<char>::empty() == text_at(t, location));
    }
}

proof fn lemma_some_visible(tokens: Seq<(char, Position)>, i: int)
    requires
        0 <= i,
    ensures
        first_visible(tokens, i) is Some <==> exists|k: int|
            i <= k < tokens.len() && !is_whitespace((#[trigger] tokens[k]).0),
    decreases tokens.len() - i,
{
    if i < tokens.len() {
        lemma_some_visible(tokens, i + 1);
        if is_whitespace(tokens[i].0) && first_visible(tokens, i + 1) is None {
            assert forall|k: int| i <= k < tokens.len() implies is_whitespace(
                (#[trigger] tokens[k]).0,
            ) by {
                if k > i {
                    assert(i + 1 <= k);
                }
            }
        }
    }
}

/// Some character of the run that was held back is not white space.
pub open spec fn holds_visible(t: BuilderModel) -> bool {
    exists|k: int|
        0 <= k < t.pending_table_character_tokens.len() && !is_whitespace(
            (#[trigger] t.pending_table_character_tokens[k]).0,
        )
}

/// What must not stand in a table goes right before the table that is last on the stack.
pub proof fn lemma_foster_place(t: BuilderModel, j: int, parent: NodeId)
    requires
        t.current_in(Group::FosterTargets),
        t.open_elements.len() > 0,
        last_named(t.document, t.open_elements, "table"@) == Some(j),
        last_named(t.document, t.open_elements, "template"@) matches Some(i) ==> i < j,
        t.document.parent(t.open_elements[j]) == Some(parent),
        html_name(t.document.kind(parent)) != Some("template"@),
    ensures
        place_of(t, true) == (InsertionLocation { parent, before: Some(t.open_elements[j]) }),
{
    reveal(BuilderModel::location);
}

/// A character in a table is held back: it comes last in the run, at its position, and
/// nothing else changes. Only a NUL is left out.
pub proof fn lemma_character_held_back(t: BuilderModel, c: char)
    ensures
        ({
            let u = t.in_table_text(TokenKindModel::Character(c)).0;
            let held = u.pending_table_character_tokens;
            &&& c != '\0' ==> chars_of(held) == chars_of(t.pending_table_character_tokens).push(c)
                && held.last().1 == t.token_position && held.drop_last()
                == t.pending_table_character_tokens
            &&& c == '\0' ==> held == t.pending_table_character_tokens
            &&& u == BuilderModel { pending_table_character_tokens: held, ..t }
        }),
{
    reveal(BuilderModel::in_table_text);
    let held = t.pending_table_character_tokens.push((c, t.token_position));
    assert(chars_of(held) == chars_of(t.pending_table_character_tokens).push(c));
    assert(held.drop_last() == t.pending_table_character_tokens);
}

/// A run of characters in a table of which one is not white space is moved out of the
/// table whole: at its end all of it, in its order, and nothing else is added to the text
/// right before the table. The table keeps its children, and so does every other element
/// but the parent of the table, which gets at most one text node; the stack stays.
pub proof fn lemma_run_is_moved(t: BuilderModel, kind: TokenKindModel, j: int, parent: NodeId)
    requires
        !(kind is Character),
        t.document.wf(),
        t.sound(),
        !t.foster_parenting,
        t.document.nodes.len() + 1 < usize::MAX,
        t.current_in(Group::FosterTargets),
        t.open_elements.len() > 0,
        last_named(t.document, t.open_elements, "table"@) == Some(j),
        last_named(t.document, t.open_elements, "template"@) matches Some(i) ==> i < j,
        t.document.parent(t.open_elements[j]) == Some(parent),
        html_name(t.document.kind(parent)) != Some("template"@),
        parent != t.document.root,
        closed_from(t.formatting, t.open_elements) == t.formatting.len(),
        forall|k: int|
            0 <= k < t.pending_table_character_tokens.len() ==> (
            #[trigger] t.pending_table_character_tokens[k]).0 != '\0',
        holds_visible(t),
    ensures
        ({
            let table = t.open_elements[j];
            let place = InsertionLocation { parent, before: Some(table) };
            let u = t.in_table_text(kind).0;
            &&& text_at(u, place) == text_at(t, place) + chars_of(t.pending_table_character_tokens)
            &&& u.document.node(table) == t.document.node(table)
            &&& only_text_changes(t.document, u.document, place)
            &&& u.document.wf()
            &&& u.open_elements == t.open_elements
            &&& u.pending_table_character_tokens.len() == 0
            &&& u.token_position == t.token_position
        }),
{
    reveal(BuilderModel::in_table_text);
    reveal(BuilderModel::release_held_back);
    let tokens = t.pending_table_character_tokens;
    let table = t.open_elements[j];
    let place = InsertionLocation { parent, before: Some(table) };
    lemma_last_named(t.document, t.open_elements, "table"@);
    lemma_foster_place(t, j, parent);
    lemma_some_visible(tokens, 0);
    let v = t.forget_held_back().error_at(
        ParseErrorKind::NonSpaceCharactersInTable,
        first_visible(tokens, 0)->0,
    );
    assert(v.sound()) by {
        reveal(BuilderModel::sound);
    }
    assert(place_of(v, true) == place) by {
        reveal(BuilderModel::location);
    }
    assert(t.document.has(table) && t.document.family(table)) by {
        reveal(BuilderModel::sound);
    }
    lemma_run_inserted(v, tokens, 0, true);
    assert(tokens.skip(0) == tokens);
    let w = v.insert_held_back(tokens, 0, true);
    let u = t.in_table_text(kind).0;
    assert(text_at(v, place) == text_at(t, place));
    assert(text_at(u, place) == text_at(w, place));
    assert(table != parent) by {
        lemma_not_own_parent(t.document, table);
    }
    assert(!(t.document.kind(table) is Text));
}

/// A run of white space in a table stays where it is: at its end all of it, in its order,
/// and nothing else is added to the text at the end of the current node.
pub proof fn lemma_white_space_stays(t: BuilderModel, kind: TokenKindModel)
    requires
        !(kind is Character),
        t.document.wf(),
        t.sound(),
        !t.foster_parenting,
        t.document.nodes.len() + 1 < usize::MAX,
        t.open_elements.len() > 0,
        html_name(t.current_kind()) != Some("template"@),
        t.open_elements.last() != t.document.root,
        !holds_visible(t),
    ensures
        ({
            let place = InsertionLocation { parent: t.open_elements.last(), before: None };
            let u = t.in_table_text(kind).0;
            &&& text_at(u, place) == text_at(t, place) + chars_of(t.pending_table_character_tokens)
            &&& only_text_changes(t.document, u.document, place)
            &&& u.document.wf()
            &&& u.open_elements == t.open_elements
            &&& u.errors == t.errors
            &&& u.pending_table_character_tokens.len() == 0
            &&& u.token_position == t.token_position
        }),
{
    reveal(BuilderModel::in_table_text);
    reveal(BuilderModel::release_held_back);
    let tokens = t.pending_table_character_tokens;
    let place = InsertionLocation { parent: t.open_elements.last(), before: None };
    lemma_some_visible(tokens, 0);
    let v = t.forget_held_back();
    assert(v.sound()) by {
        reveal(BuilderModel::sound);
    }
    assert(place_of(v, false) == place) by {
        reveal(BuilderModel::location);
    }
    assert(t.document.has(t.open_elements.last())) by {
        reveal(BuilderModel::sound);
        assert(t.document.has(t.open_elements[t.open_elements.len() - 1]));
    }
    lemma_run_inserted(v, tokens, 0, false);
    assert(tokens.skip(0) == tokens);
    let w = v.insert_held_back(tokens, 0, false);
    let u = t.in_table_text(kind).0;
    assert(text_at(v, place) == text_at(t, place));
    assert(text_at(u, place) == text_at(w, place));
}

} // verus!
