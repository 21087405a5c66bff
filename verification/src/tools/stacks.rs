//! Stacks as the catalogue describes them. Every tool that names an item builds it here, so a field
//! one of them spells differently is a field the server cannot read in one place rather than six.
use vstd::prelude::*;

use crate::json::{a_field_reads_back, an_empty_object_has_nothing, docs, Doc, Json};
use crate::words::{bare, contains, lowercase, lowercase_of, occurs, trim, trimmed, unprefixed};

verus! {

/// A stack of items, as the plain values its readers ask for.
pub struct Stack {
    /// The item's number in the game's registry.
    pub item: u32,
    /// The registry path, which is how a sentence names an item: "iron_ingot", not "Iron Ingot".
    pub name: String,
    pub count: i32,
    /// The name a server gave it, as the component that name was written as.
    pub custom_name: Option<Json>,
    /// The item's own name in the client's language.
    pub item_name: Option<String>,
    pub lore: Vec<Json>,
    /// The enchantments on it, by their numbers in the registry, with their levels: what a book
    /// stores first.
    pub enchantments: Vec<(u32, i32)>,
    /// Whether a recipe may take it: the game passes over anything damaged, enchanted or named.
    pub simple: bool,
}

/// The name a server gave a stack, and the component that name was written as.
pub open spec fn label_of(stack: Stack) -> (Doc, Doc) {
    match stack.custom_name {
        Some(name) => (Doc::Text(name@.words()), name@),
        None => (Doc::Null, Doc::Null),
    }
}

/// The name a server gave it, and the component that name was written as. A plugin draws a menu
/// out of custom-named items in the pack's own glyphs, and flattened here the icons would be gone
/// before the server could tell a label from a spacer.
fn label(stack: &Stack) -> (r: (Json, Json))
    ensures
        (r.0@, r.1@) == label_of(*stack),
{
    match &stack.custom_name {
        Some(name) => (Json::Text(name.words()), name.copy()),
        None => (Json::Null, Json::Null),
    }
}

pub open spec fn carried_of(stack: Stack, slot: int) -> Doc {
    Doc::object().with("name"@, Doc::Text(stack.name@)).with(
        "count"@,
        Doc::number(stack.count as int),
    ).with("slot"@, Doc::number(slot)).with("label"@, label_of(stack).0).with(
        "labelComponent"@,
        label_of(stack).1,
    )
}

/// A carried stack in a numbered slot of the player's own inventory.
pub fn carried(stack: &Stack, slot: usize) -> (r: Json)
    ensures
        r@ == carried_of(*stack, slot as int),
{
    let (label, component) = label(stack);
    Json::object().with("name", Json::Text(stack.name.clone())).with(
        "count",
        Json::number(stack.count as i64),
    ).with("slot", Json::count(slot as u64)).with("label", label).with("labelComponent", component)
}

/// The lines of a stack's lore as they read.
pub open spec fn lore_words(stack: Stack) -> Seq<Doc> {
    Seq::new(stack.lore@.len(), |i: int| Doc::Text(stack.lore@[i]@.words()))
}

pub open spec fn described_of(stack: Stack) -> Doc {
    Doc::object().with("name"@, Doc::Text(stack.name@)).with(
        "count"@,
        Doc::number(stack.count as int),
    ).with("label"@, label_of(stack).0).with("labelComponent"@, label_of(stack).1).with(
        "lore"@,
        Doc::list(lore_words(stack)),
    ).with("loreComponents"@, Doc::list(docs(stack.lore@)))
}

fn described(stack: &Stack) -> (r: Json)
    ensures
        r@ == described_of(*stack),
{
    counted(stack, stack.count)
}

/// A stack described as if there were so many of it.
pub fn counted(stack: &Stack, count: i32) -> (r: Json)
    ensures
        r@ == described_of((Stack { count, ..*stack })),
{
    let (label, component) = label(stack);
    let mut lines: Vec<Json> = Vec::new();
    let mut components: Vec<Json> = Vec::new();
    let mut i: usize = 0;
    while i < stack.lore.len()
        invariant
            i <= stack.lore@.len(),
            lines@.len() == i,
            components@.len() == i,
            forall|k: int| 0 <= k < i ==> (#[trigger] lines@[k])@ == lore_words(*stack)[k],
            forall|k: int| 0 <= k < i ==> (#[trigger] components@[k])@ == stack.lore@[k]@,
        decreases stack.lore@.len() - i,
    {
        lines.push(Json::Text(stack.lore[i].words()));
        components.push(stack.lore[i].copy());
        i += 1;
    }
    proof {
        assert(docs(lines@) =~= lore_words(*stack));
        assert(docs(components@) =~= docs(stack.lore@));
    }
    Json::object().with("name", Json::Text(stack.name.clone())).with(
        "count",
        Json::number(count as i64),
    ).with("label", label).with("labelComponent", component).with("lore", Json::list(lines)).with(
        "loreComponents",
        Json::list(components),
    )
}

/// A stack in a numbered slot of a window. Only ever called for one that holds something.
pub fn slot(stack: &Stack, index: usize) -> (r: Json)
    ensures
        r@ == described_of(*stack).with("slot"@, Doc::number(index as int)),
{
    described(stack).with("slot", Json::count(index as u64))
}

pub open spec fn held_of(stack: Option<Stack>) -> Doc {
    match stack {
        Some(stack) => described_of(stack),
        None => Doc::Null,
    }
}

/// A stack that is not in a numbered slot: under the cursor, or on its way to the ground. Empty
/// travels as no stack at all rather than as a count of zero.
pub fn held(stack: &Option<Stack>) -> (r: Json)
    ensures
        r@ == held_of(*stack),
{
    match stack {
        Some(stack) => described(stack),
        None => Json::Null,
    }
}

/// What a caller typed, the way a registry name is compared.
pub open spec fn needle_of(query: Seq<char>) -> Seq<char> {
    bare(lowercase_of(trimmed(query)))
}

/// What a caller typed, the way a registry name is compared: "minecraft:diamond" and "Diamond" are
/// both a diamond to somebody looking for one.
pub fn needle(query: &str) -> (r: String)
    ensures
        r@ == needle_of(query@),
{
    let lowered = lowercase(trim(query).as_str());
    unprefixed(lowered.as_str())
}

/// The name on the tooltip: the custom name, else the item's own, else its registry path.
pub open spec fn shown_name(stack: Stack) -> Seq<char> {
    match stack.custom_name {
        Some(name) => name@.words(),
        None => match stack.item_name {
            Some(name) => name@,
            None => stack.name@,
        },
    }
}

/// The name on the tooltip: the custom name, else the item's own, in the client's language.
pub fn shown_as(stack: &Stack) -> (r: String)
    ensures
        r@ == shown_name(*stack),
{
    match &stack.custom_name {
        Some(name) => name.words(),
        None => match &stack.item_name {
            Some(name) => name.clone(),
            None => stack.name.clone(),
        },
    }
}

/// Whether a stack answers to what a caller typed.
pub open spec fn answers(stack: Stack, query: Seq<char>) -> bool {
    occurs(stack.name@, needle_of(query)) || occurs(
        lowercase_of(shown_name(stack)),
        needle_of(query),
    )
}

/// Whether a stack answers to what a caller typed: the registry path or the name it is shown as.
pub fn matches(stack: &Stack, query: &str) -> (r: bool)
    ensures
        r == answers(*stack, query@),
{
    let needle = needle(query);
    contains(stack.name.as_str(), needle.as_str()) || contains(
        lowercase(shown_as(stack).as_str()).as_str(),
        needle.as_str(),
    )
}

/// What is told of a stack: what it is, how many there are, what a server called it and wrote under
/// that, in words and as it was written. A slot that is empty is told as nothing.
pub proof fn a_stack_is_told_as_it_stands(stack: Stack, slot: int, i: int)
    ensures
        held_of(None) == Doc::Null,
        ({
            let told = held_of(Some(stack));
            &&& told.text_at("name"@) == Some(stack.name@)
            &&& told.at("count"@) == Some(Doc::number(stack.count as int))
            &&& told.at("slot"@) is None
            &&& stack.custom_name is None ==> told.at("label"@) == Some(Doc::Null)
                && told.at("labelComponent"@) == Some(Doc::Null)
            &&& stack.custom_name matches Some(name) ==> told.text_at("label"@) == Some(
                name@.words(),
            ) && told.at("labelComponent"@) == Some(name@)
            &&& told.items_at("lore"@)->0.len() == stack.lore@.len()
            &&& told.items_at("loreComponents"@) == Some(docs(stack.lore@))
            &&& 0 <= i < stack.lore@.len() ==> told.items_at("lore"@)->0[i] == Doc::Text(
                stack.lore@[i]@.words(),
            )
        }),
        ({
            let told = carried_of(stack, slot);
            &&& told.text_at("name"@) == Some(stack.name@)
            &&& told.at("count"@) == Some(Doc::number(stack.count as int))
            &&& told.at("slot"@) == Some(Doc::number(slot))
            &&& told.at("label"@) == held_of(Some(stack)).at("label"@)
            &&& told.at("labelComponent"@) == held_of(Some(stack)).at("labelComponent"@)
        }),
{
    broadcast use {a_field_reads_back, an_empty_object_has_nothing};
    reveal_strlit("name");
    reveal_strlit("count");
    reveal_strlit("label");
    reveal_strlit("labelComponent");
    reveal_strlit("lore");
    reveal_strlit("loreComponents");
    reveal_strlit("slot");
    assert("name"@.len() == 4);
    assert("count"@.len() == 5);
    assert("label"@.len() == 5);
    assert("labelComponent"@.len() == 14);
    assert("lore"@.len() == 4);
    assert("loreComponents"@.len() == 14);
    assert("slot"@.len() == 4);
    assert("name"@[0] != "lore"@[0]);
    assert("name"@[0] != "slot"@[0]);
    assert("count"@[0] != "label"@[0]);
    assert("labelComponent"@[1] != "loreComponents"@[1]);
    assert("lore"@[0] != "slot"@[0]);
}

/// A stack is shown by the name a server gave it, else by the item's own, else by what it is; and it
/// answers to a part of what it is or of what it is shown by.
pub proof fn a_stack_answers_to_its_names(stack: Stack, query: Seq<char>)
    ensures
        stack.custom_name matches Some(name) ==> shown_name(stack) == name@.words(),
        stack.custom_name is None ==> (stack.item_name matches Some(name) ==> shown_name(stack)
            == name@),
        stack.custom_name is None && stack.item_name is None ==> shown_name(stack) == stack.name@,
        answers(stack, query) <==> occurs(
            stack.name@,
            bare(lowercase_of(trimmed(query))),
        ) || occurs(lowercase_of(shown_name(stack)), bare(lowercase_of(trimmed(query)))),
{
}

/// A described stack has its name and count, and its label and lore in words and as they were written.
pub proof fn a_described_stack_has_both_wordings(stack: Stack)
    ensures
        described_of(stack).text_at("name"@) == Some(stack.name@),
        described_of(stack).at("count"@) == Some(Doc::number(stack.count as int)),
        stack.custom_name matches Some(name) ==> described_of(stack).text_at("label"@) == Some(
            name@.words(),
        ) && described_of(stack).at("labelComponent"@) == Some(name@),
        stack.custom_name is None ==> described_of(stack).at("label"@) == Some(Doc::Null)
            && described_of(stack).at("labelComponent"@) == Some(Doc::Null),
        described_of(stack).at("lore"@) == Some(Doc::list(lore_words(stack))),
        described_of(stack).at("loreComponents"@) == Some(Doc::list(docs(stack.lore@))),
{
    broadcast use {a_field_reads_back, an_empty_object_has_nothing};
    reveal_strlit("name");
    reveal_strlit("count");
    reveal_strlit("label");
    reveal_strlit("labelComponent");
    reveal_strlit("lore");
    reveal_strlit("loreComponents");
    assert("name"@.len() == 4);
    assert("count"@.len() == 5);
    assert("label"@.len() == 5);
    assert("labelComponent"@.len() == 14);
    assert("lore"@.len() == 4);
    assert("loreComponents"@.len() == 14);
    assert("name"@[0] != "lore"@[0]);
    assert("count"@[0] != "label"@[0]);
    assert("labelComponent"@[1] != "loreComponents"@[1]);
}

} // verus!
