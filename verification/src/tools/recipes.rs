//! What the bot has been taught to craft, and crafting it.
//!
//! A client is sent a recipe as the server unlocks it and is never told the whole set, so all of
//! this is about what the bot can place rather than about what the game can make, and every answer
//! says so with `onlyWhatTheBotKnows`: "no recipe" from a client means "not taught to me".
use vstd::prelude::*;

use crate::calls::{Answer, AnswerView, Failure, FailureView};
use crate::hud::ints;
use crate::json::{a_field_reads_back, an_empty_object_has_nothing, docs, Doc, Json};
use crate::menus::{
    first_item, first_item_of, Known, Recipe, RecipeDisplay, SlotDisplay,
};
use crate::order::{in_order, one_order_only, order_by, order_of, precedes};
use crate::place::BlockPos;
use crate::table::{distinct, holds, spot, Key, Table};
use crate::tools::inventory::BAG_START;
use crate::tools::serving::{can_serve, serves};
use crate::tools::stacks::Stack;
use crate::words::{cat3, cat4, cat5, dec, same, signed, wrapped_u32};

verus! {

/// A player carries a two-by-two; anything larger is a crafting table.
pub const PLAYER_GRID: u32 = 2;

/// How far list-recipes and can-craft look for a table, and how far craft-item walks to one: the
/// distances the other kinds of bot use, so all of them give up at the same place.
pub const TABLE_IN_REACH: i32 = 8;

pub const TABLE_SEARCH: i32 = 16;

/// The same cap the other kinds of bot apply, so a capped answer is capped at the same place.
pub const MAX_LISTED: usize = 100;

pub const RESULT_SLOT: usize = 0;

/// The server fills the grid when it gets round to it; a few ticks is plenty.
pub const PATIENCE_TICKS: u32 = 40;

/// As many slots as can be counted over.
pub const MOST_SLOTS: usize = 0x8000_0000;

impl RecipeDisplay {
    pub open spec fn crafts(&self) -> bool {
        self is Shaped || self is Shapeless
    }

    pub fn is_crafting(&self) -> (r: bool)
        ensures
            r == self.crafts(),
    {
        match self {
            RecipeDisplay::Shaped { .. } => true,
            RecipeDisplay::Shapeless { .. } => true,
            _ => false,
        }
    }

    /// Whether a recipe wants more room than the player's own grid.
    pub open spec fn wants_table(&self) -> bool {
        match self {
            RecipeDisplay::Shaped { width, height, .. } => *width > 2 || *height > 2,
            RecipeDisplay::Shapeless { ingredients, .. } => ingredients@.len() > 4,
            _ => true,
        }
    }

    /// Whether a recipe wants more room than the player's own grid. Placing one there anyway is
    /// refused by the server without a word, which would read as a result that never appeared.
    pub fn requires_table(&self) -> (r: bool)
        ensures
            r == self.wants_table(),
            self matches RecipeDisplay::Shaped { width, height, .. } ==> (r <==> !(*width
                <= PLAYER_GRID && *height <= PLAYER_GRID)),
            self matches RecipeDisplay::Shapeless { ingredients, .. } ==> (r <==> ingredients@.len()
                > PLAYER_GRID * PLAYER_GRID),
    {
        match self {
            RecipeDisplay::Shaped { width, height, .. } => *width > PLAYER_GRID || *height
                > PLAYER_GRID,
            RecipeDisplay::Shapeless { ingredients, .. } => ingredients.len() > 4,
            _ => true,
        }
    }

    pub open spec fn made(&self) -> SlotDisplay {
        match *self {
            RecipeDisplay::Shaped { result, .. } => result,
            RecipeDisplay::Shapeless { result, .. } => result,
            RecipeDisplay::Furnace { result } => result,
            RecipeDisplay::Stonecutter { result } => result,
            RecipeDisplay::Smithing { result } => result,
        }
    }

    pub fn result(&self) -> (r: &SlotDisplay)
        ensures
            *r == self.made(),
    {
        match self {
            RecipeDisplay::Shaped { result, .. } => result,
            RecipeDisplay::Shapeless { result, .. } => result,
            RecipeDisplay::Furnace { result } => result,
            RecipeDisplay::Stonecutter { result } => result,
            RecipeDisplay::Smithing { result } => result,
        }
    }

    /// The slots a crafting recipe is laid out in.
    pub open spec fn slots(&self) -> Seq<SlotDisplay> {
        match self {
            RecipeDisplay::Shaped { ingredients, .. } => ingredients@,
            RecipeDisplay::Shapeless { ingredients, .. } => ingredients@,
            _ => Seq::empty(),
        }
    }
}

/// The items of the first `n` members of a tag.
pub open spec fn tagged(known: Known, members: Seq<i32>, n: int) -> Seq<(u32, i32)>
    decreases n,
{
    if n <= 0 {
        Seq::empty()
    } else {
        match known.item_of(members[n - 1]) {
            Some(item) => tagged(known, members, n - 1).push((item, 1i32)),
            None => tagged(known, members, n - 1),
        }
    }
}

/// Every stack a display stands for.
pub open spec fn stacks_in(display: SlotDisplay, known: Known) -> Seq<(u32, i32)>
    decreases display, 0int,
{
    match display {
        SlotDisplay::Tag(tag) => {
            let members = known.members("minecraft:item"@, tag@);
            tagged(known, members, members.len() as int)
        },
        SlotDisplay::Composite(contents) => stacks_among(contents@, known, contents@.len() as int),
        _ => match first_item_of(display, known) {
            Some(stack) => seq![stack],
            None => Seq::empty(),
        },
    }
}

/// Every stack the first `n` of some displays stand for.
pub open spec fn stacks_among(displays: Seq<SlotDisplay>, known: Known, n: int) -> Seq<(u32, i32)>
    decreases displays, n,
{
    if n <= 0 || n > displays.len() {
        Seq::empty()
    } else {
        stacks_among(displays, known, n - 1) + stacks_in(displays[n - 1], known)
    }
}

/// Every stack a display stands for, as the game resolves one to list a recipe's results.
pub fn stacks_of(display: &SlotDisplay, known: &Known) -> (r: Vec<(u32, i32)>)
    ensures
        r@ == stacks_in(*display, *known),
    decreases *display,
{
    let mut out: Vec<(u32, i32)> = Vec::new();
    match display {
        SlotDisplay::Tag(tag) => {
            match known.tag("minecraft:item", tag.as_str()) {
                Some(ids) => {
                    let mut i: usize = 0;
                    while i < ids.len()
                        invariant
                            i <= ids@.len(),
                            out@ == tagged(*known, ids@, i as int),
                        decreases ids@.len() - i,
                    {
                        if let Some(item) = known.item(ids[i]) {
                            out.push((item, 1));
                        }
                        i += 1;
                    }
                },
                None => {},
            }
        },
        SlotDisplay::Composite(contents) => {
            let mut i: usize = 0;
            while i < contents.len()
                invariant
                    i <= contents@.len(),
                    *display == SlotDisplay::Composite(*contents),
                    out@ == stacks_among(contents@, *known, i as int),
                decreases contents@.len() - i,
            {
                proof {
                    assert(decreases_to!(*display => (*display)->Composite_0));
                    assert(decreases_to!(*contents => contents[i as int]));
                }
                let mut some = stacks_of(&contents[i], known);
                out.append(&mut some);
                i += 1;
            }
        },
        _ => {
            if let Some(stack) = first_item(display, known) {
                out.push(stack);
                proof {
                    assert(out@ =~= seq![stack]);
                }
            }
        },
    }
    out
}

/// The registry path of an item. What is no item reads as air.
pub open spec fn path_of(known: Known, item: u32) -> Seq<char> {
    match known.path_of(item) {
        Some(path) => path,
        None => "air"@,
    }
}

pub fn path(known: &Known, item: u32) -> (r: &str)
    ensures
        r@ == path_of(*known, item),
{
    if (item as usize) < known.items.len() {
        known.items[item as usize].as_str()
    } else {
        "air"
    }
}

/// Whether one of some stacks is of the named item.
pub open spec fn names(stacks: Seq<(u32, i32)>, known: Known, item: Seq<char>) -> bool {
    exists|i: int| 0 <= i < stacks.len() && path_of(known, (#[trigger] stacks[i]).0) == item
}

/// Whether a recipe is one of the grid that makes the named item.
pub open spec fn makes(recipe: Recipe, known: Known, item: Seq<char>) -> bool {
    recipe.display.crafts() && names(stacks_in(recipe.display.made(), known), known, item)
}

fn is_made(recipe: &Recipe, known: &Known, item: &str) -> (r: bool)
    ensures
        r == makes(*recipe, *known, item@),
{
    if !recipe.display.is_crafting() {
        return false;
    }
    let stacks = stacks_of(recipe.display.result(), known);
    let mut i: usize = 0;
    while i < stacks.len()
        invariant
            i <= stacks@.len(),
            recipe.display.crafts(),
            stacks@ == stacks_in(recipe.display.made(), *known),
            forall|k: int| 0 <= k < i ==> path_of(*known, (#[trigger] stacks@[k]).0) != item@,
        decreases stacks@.len() - i,
    {
        if same(path(known, stacks[i].0), item) {
            proof {
                assert(path_of(*known, stacks@[i as int].0) == item@);
            }
            return true;
        }
        i += 1;
    }
    false
}

/// The places among the first `n` recipes of those that make the named item.
pub open spec fn producing_of(recipes: Seq<Recipe>, known: Known, item: Seq<char>, n: int) -> Seq<int>
    decreases n,
{
    if n <= 0 {
        Seq::empty()
    } else if makes(recipes[n - 1], known, item) {
        producing_of(recipes, known, item, n - 1).push(n - 1)
    } else {
        producing_of(recipes, known, item, n - 1)
    }
}

/// Whether places are those of a list.
pub open spec fn places_in(places: Seq<usize>, count: int) -> bool {
    forall|i: int| 0 <= i < places.len() ==> (#[trigger] places[i]) < count
}

/// Every taught crafting recipe that makes the named item, by its place in the book. A furnace is
/// smelt-item's.
pub fn producing(recipes: &Vec<Recipe>, known: &Known, item: &str) -> (r: Vec<usize>)
    ensures
        ints(r@) == producing_of(recipes@, *known, item@, recipes@.len() as int),
        places_in(r@, recipes@.len() as int),
{
    let mut out: Vec<usize> = Vec::new();
    let mut i: usize = 0;
    proof {
        assert(ints(out@) =~= Seq::<int>::empty());
    }
    while i < recipes.len()
        invariant
            i <= recipes@.len(),
            ints(out@) == producing_of(recipes@, *known, item@, i as int),
            places_in(out@, i as int),
        decreases recipes@.len() - i,
    {
        if is_made(&recipes[i], known, item) {
            let ghost before = out@;
            out.push(i);
            proof {
                assert(ints(out@) =~= ints(before).push(i as int));
            }
        }
        i += 1;
    }
    out
}

/// A tally with one key counted up.
pub open spec fn tallied<K>(list: Seq<(K, int)>, key: K, n: int) -> Seq<(K, int)> {
    if holds(list, key) {
        let at = spot(list, key);
        list.update(at, (key, list[at].1 + n))
    } else {
        list.push((key, n))
    }
}

pub open spec fn tally_of<K: Key>(list: Seq<(K, u64)>) -> Seq<(K::V, int)> {
    Seq::new(list.len(), |i: int| (list[i].0@, list[i].1 as int))
}

/// Count a key up in a tally.
fn tally<K: Key>(list: &mut Vec<(K, u64)>, key: K, n: u64, Ghost(most): Ghost<int>)
    requires
        distinct(tally_of(old(list)@)),
        forall|i: int| 0 <= i < old(list)@.len() ==> (#[trigger] old(list)@[i]).1 <= most,
        0 <= most,
        most + n <= u64::MAX,
    ensures
        tally_of(final(list)@) == tallied(tally_of(old(list)@), key@, n as int),
        distinct(tally_of(final(list)@)),
        forall|i: int| 0 <= i < final(list)@.len() ==> (#[trigger] final(list)@[i]).1 <= most + n,
{
    let ghost before = list@;
    let ghost seen = tally_of(before);
    let mut i: usize = 0;
    while i < list.len()
        invariant
            i <= list@.len(),
            list@ == before,
            before == old(list)@,
            seen == tally_of(before),
            distinct(seen),
            0 <= most,
            most + n <= u64::MAX,
            forall|k: int| 0 <= k < before.len() ==> (#[trigger] before[k]).1 <= most,
            forall|k: int| 0 <= k < i ==> (#[trigger] before[k]).0@ != key@,
        decreases list@.len() - i,
    {
        if list[i].0.is(&key) {
            let count: u64 = list[i].1 + n;
            proof {
                assert(seen[i as int].0 == key@);
                let at = spot(seen, key@);
                assert(holds(seen, key@));
                assert(at == i) by {
                    if at < i {
                        assert(seen[at].0 != seen[i as int].0);
                    } else if at > i {
                        assert(seen[i as int].0 != seen[at].0);
                    }
                }
            }
            list.set(i, (key, count));
            proof {
                assert(tally_of(list@) =~= tallied(seen, key@, n as int));
                still_distinct(seen, i as int, key@, count as int);
            }
            return;
        }
        i += 1;
    }
    proof {
        if holds(seen, key@) {
            let at = spot(seen, key@);
            assert(before[at].0@ == key@);
        }
    }
    list.push((key, n));
    proof {
        assert(tally_of(list@) =~= tallied(seen, key@, n as int));
        let next = tally_of(list@);
        assert forall|a: int, b: int| 0 <= a < b < next.len() implies (#[trigger] next[a]).0 != (
        #[trigger] next[b]).0 by {
            if b < seen.len() {
                assert(seen[a].0 != seen[b].0);
            } else {
                assert(seen[a].0 == before[a].0@);
            }
        }
    }
}

proof fn still_distinct<K>(list: Seq<(K, int)>, at: int, key: K, count: int)
    requires
        distinct(list),
        0 <= at < list.len(),
        list[at].0 == key,
    ensures
        distinct(list.update(at, (key, count))),
{
    let next = list.update(at, (key, count));
    assert forall|a: int, b: int| 0 <= a < b < next.len() implies (#[trigger] next[a]).0 != (
    #[trigger] next[b]).0 by {
        assert(list[a].0 != list[b].0);
        assert(next[a].0 == list[a].0);
        assert(next[b].0 == list[b].0);
    }
}

/// One line per distinct ingredient of the first `n` slots, with how many of it they take. A slot
/// display is a set of things that would do and the first is named.
pub open spec fn needed_in(slots: Seq<SlotDisplay>, known: Known, n: int) -> Seq<(Seq<char>, int)>
    decreases n,
{
    if n <= 0 {
        Seq::empty()
    } else {
        match first_item_of(slots[n - 1], known) {
            Some((item, _)) => tallied(needed_in(slots, known, n - 1), path_of(known, item), 1),
            None => needed_in(slots, known, n - 1),
        }
    }
}

pub open spec fn needed_of(recipe: Recipe, known: Known) -> Seq<(Seq<char>, int)> {
    let slots = recipe.display.slots();
    needed_in(slots, known, slots.len() as int)
}

/// One line per distinct ingredient, with how many of it the recipe takes. A slot display is a set of
/// things that would do -- any plank -- and the first is named, because a caller wants a name to go
/// and get rather than the whole set.
pub fn ingredients(recipe: &Recipe, known: &Known) -> (r: Vec<(String, u64)>)
    ensures
        tally_of(r@) == needed_of(*recipe, *known),
{
    let none: Vec<SlotDisplay> = Vec::new();
    let slots: &Vec<SlotDisplay> = match &recipe.display {
        RecipeDisplay::Shaped { ingredients, .. } => ingredients,
        RecipeDisplay::Shapeless { ingredients, .. } => ingredients,
        _ => &none,
    };
    proof {
        assert(slots@ =~= recipe.display.slots());
    }
    let mut out: Vec<(String, u64)> = Vec::new();
    let mut i: usize = 0;
    proof {
        assert(tally_of(out@) =~= Seq::empty());
    }
    while i < slots.len()
        invariant
            i <= slots@.len(),
            tally_of(out@) == needed_in(slots@, *known, i as int),
            distinct(tally_of(out@)),
            forall|k: int| 0 <= k < out@.len() ==> (#[trigger] out@[k]).1 <= i,
        decreases slots@.len() - i,
    {
        let count: usize = slots.len();
        if let Some((item, _)) = first_item(&slots[i], known) {
            let name = path(known, item).to_owned();
            tally(&mut out, name, 1, Ghost(i as int));
        }
        i += 1;
    }
    out
}

/// How many of an item are held.
pub open spec fn held_in(held: Map<Seq<char>, u64>, name: Seq<char>) -> int {
    if held.dom().contains(name) {
        held[name] as int
    } else {
        0
    }
}

/// What is short of what is needed.
pub open spec fn short_of(held: Map<Seq<char>, u64>, needed: Seq<(Seq<char>, int)>) -> Seq<
    (Seq<char>, int),
>
    decreases needed.len(),
{
    if needed.len() == 0 {
        Seq::empty()
    } else {
        let (name, count) = needed.last();
        let gap = count - held_in(held, name);
        if gap > 0 {
            short_of(held, needed.drop_last()).push((name, gap))
        } else {
            short_of(held, needed.drop_last())
        }
    }
}

/// What the inventory is short of for one recipe. Empty means it can be made now.
pub fn missing(held: &Table<String, u64>, needed: &Vec<(String, u64)>) -> (r: Vec<(String, u64)>)
    ensures
        tally_of(r@) == short_of(held@, tally_of(needed@)),
{
    let ghost all = tally_of(needed@);
    let mut out: Vec<(String, u64)> = Vec::new();
    let mut i: usize = 0;
    proof {
        assert(tally_of(out@) =~= Seq::empty());
        assert(all.take(0) =~= Seq::empty());
    }
    while i < needed.len()
        invariant
            i <= needed@.len(),
            all == tally_of(needed@),
            tally_of(out@) == short_of(held@, all.take(i as int)),
        decreases needed@.len() - i,
    {
        let (name, count) = &needed[i];
        proof {
            assert(all.take(i + 1).drop_last() =~= all.take(i as int));
            assert(all.take(i + 1).last() == (name@, *count as int));
        }
        let have: u64 = match held.get(name) {
            Some(have) => *have,
            None => 0,
        };
        if *count > have {
            let ghost before = out@;
            out.push((name.clone(), *count - have));
            proof {
                assert(tally_of(out@) =~= tally_of(before).push((name@, *count - have)));
            }
        }
        i += 1;
    }
    proof {
        assert(all.take(i as int) =~= all);
    }
    out
}

/// Nothing is missing exactly where all that is needed is held.
pub proof fn nothing_missing_is_all_held(held: Map<Seq<char>, u64>, needed: Seq<(Seq<char>, int)>)
    ensures
        short_of(held, needed).len() == 0 <==> forall|i: int|
            0 <= i < needed.len() ==> held_in(held, (#[trigger] needed[i]).0) >= needed[i].1,
    decreases needed.len(),
{
    if needed.len() > 0 {
        let rest = needed.drop_last();
        nothing_missing_is_all_held(held, rest);
        if short_of(held, needed).len() == 0 {
            assert forall|i: int| 0 <= i < needed.len() implies held_in(
                held,
                (#[trigger] needed[i]).0,
            ) >= needed[i].1 by {
                if i < rest.len() {
                    assert(rest[i] == needed[i]);
                }
            }
        } else if forall|i: int|
            0 <= i < needed.len() ==> held_in(held, (#[trigger] needed[i]).0) >= needed[i].1 {
            assert(needed.last() == needed[needed.len() - 1]);
            assert forall|i: int| 0 <= i < rest.len() implies held_in(held, (#[trigger] rest[i]).0)
                >= rest[i].1 by {
                assert(rest[i] == needed[i]);
            }
        }
    }
}

pub open spec fn count_docs(counted: Seq<(Seq<char>, int)>) -> Seq<Doc> {
    Seq::new(
        counted.len(),
        |i: int|
            Doc::object().with("name"@, Doc::Text(counted[i].0)).with(
                "count"@,
                Doc::number(counted[i].1),
            ),
    )
}

pub fn counts(counted: &Vec<(String, u64)>) -> (r: Vec<Json>)
    ensures
        docs(r@) == count_docs(tally_of(counted@)),
{
    let mut out: Vec<Json> = Vec::new();
    let mut i: usize = 0;
    while i < counted.len()
        invariant
            i <= counted@.len(),
            out@.len() == i,
            forall|k: int|
                0 <= k < i ==> (#[trigger] out@[k])@ == count_docs(tally_of(counted@))[k],
        decreases counted@.len() - i,
    {
        let (name, count) = &counted[i];
        out.push(
            Json::object().with("name", Json::Text(name.clone())).with(
                "count",
                Json::count(*count),
            ),
        );
        i += 1;
    }
    proof {
        assert(docs(out@) =~= count_docs(tally_of(counted@)));
    }
    out
}

/// A recipe as it is answered, with what the inventory is still short of.
pub open spec fn recipe_doc(recipe: Recipe, known: Known, held: Map<Seq<char>, u64>) -> Doc {
    let stacks = stacks_in(recipe.display.made(), known);
    let made = if stacks.len() > 0 {
        (path_of(known, stacks[0].0), stacks[0].1 as int)
    } else {
        ("air"@, 0int)
    };
    Doc::object().with(
        "result"@,
        Doc::object().with("name"@, Doc::Text(made.0)).with("count"@, Doc::number(made.1)),
    ).with("ingredients"@, Doc::list(count_docs(needed_of(recipe, known)))).with(
        "missing"@,
        Doc::list(count_docs(short_of(held, needed_of(recipe, known)))),
    ).with("requiresTable"@, Doc::Bool(recipe.display.wants_table()))
}

pub fn describe(recipe: &Recipe, known: &Known, held: &Table<String, u64>) -> (r: Json)
    ensures
        r@ == recipe_doc(*recipe, *known, held@),
{
    let needed = ingredients(recipe, known);
    let stacks = stacks_of(recipe.display.result(), known);
    let (name, count): (&str, i32) = if stacks.len() > 0 {
        (path(known, stacks[0].0), stacks[0].1)
    } else {
        ("air", 0)
    };
    let short = missing(held, &needed);
    Json::object().with(
        "result",
        Json::object().with("name", Json::text(name)).with("count", Json::number(count as i64)),
    ).with("ingredients", Json::list(counts(&needed))).with(
        "missing",
        Json::list(counts(&short)),
    ).with("requiresTable", Json::Bool(recipe.display.requires_table()))
}

/// Whether each ingredient of a recipe can be given an item of its own.
pub open spec fn craftable(recipe: Recipe, known: Known, simple: Seq<(u32, u64)>) -> bool {
    match recipe.requirements {
        Some(wanted) => exists|picks: Seq<int>| serves(known, wanted@, simple, picks),
        None => false,
    }
}

/// Whether the inventory holds one of everything the recipe asks for, each ingredient served by its
/// own item: an item one of them needs is not spent on another that would have taken something else.
/// `simple` are the items there are with how many of each.
pub fn can_craft(recipe: &Recipe, known: &Known, simple: &Vec<(u32, u64)>) -> (r: bool)
    ensures
        r == craftable(*recipe, *known, simple@),
{
    match &recipe.requirements {
        Some(wanted) => can_serve(known, wanted, simple),
        None => false,
    }
}

/// How many of an item there are in the bag and on the hotbar, among the first `n` slots.
pub open spec fn carried_count(slots: Seq<Option<Stack>>, name: Seq<char>, n: int) -> int
    decreases n,
{
    if n <= BAG_START {
        0
    } else {
        carried_count(slots, name, n - 1) + match slots[n - 1] {
            Some(stack) => if stack.name@ == name && stack.count > 0 {
                stack.count as int
            } else {
                0
            },
            None => 0,
        }
    }
}

/// What the bot carries, by item: in the bag and on the hotbar, as a recipe counts it.
pub fn held(slots: &Vec<Option<Stack>>) -> (r: Table<String, u64>)
    requires
        slots@.len() <= MOST_SLOTS,
    ensures
        forall|name: Seq<char>| #[trigger]
            held_in(r@, name) == carried_count(slots@, name, slots@.len() as int),
{
    let mut out: Table<String, u64> = Table::new();
    let mut i: usize = BAG_START;
    while i < slots.len()
        invariant
            BAG_START <= i,
            i <= slots@.len() || i == BAG_START,
            slots@.len() <= MOST_SLOTS,
            forall|name: Seq<char>| #[trigger]
                held_in(out@, name) == carried_count(slots@, name, i as int),
            forall|name: Seq<char>| #[trigger] held_in(out@, name) <= i * 0x8000_0000,
        decreases slots@.len() - i,
    {
        let ghost before = out@;
        if let Some(stack) = &slots[i] {
            if stack.count > 0 {
                let have: u64 = match out.get(&stack.name) {
                    Some(have) => *have,
                    None => 0,
                };
                proof {
                    assert(held_in(before, stack.name@) == have);
                }
                let name = stack.name.clone();
                out.insert(name, have + stack.count as u64);
                proof {
                    assert forall|name: Seq<char>| #[trigger]
                        held_in(out@, name) == carried_count(slots@, name, i + 1) && held_in(
                            out@,
                            name,
                        ) <= (i + 1) * 0x8000_0000 by {
                        assert(held_in(before, name) == carried_count(slots@, name, i as int));
                        assert(held_in(before, name) <= i * 0x8000_0000);
                    }
                }
            }
        }
        proof {
            assert forall|name: Seq<char>| #[trigger]
                held_in(out@, name) == carried_count(slots@, name, i + 1) && held_in(out@, name)
                    <= (i + 1) * 0x8000_0000 by {
                assert(held_in(before, name) == carried_count(slots@, name, i as int));
                assert(held_in(before, name) <= i * 0x8000_0000);
            }
        }
        i += 1;
    }
    proof {
        if slots@.len() < BAG_START {
            assert forall|name: Seq<char>| #[trigger]
                held_in(out@, name) == carried_count(slots@, name, slots@.len() as int) by {
                assert(held_in(out@, name) == carried_count(slots@, name, i as int));
            }
        }
    }
    out
}

/// The items of the first `n` slots that a recipe may take, with how many there are.
pub open spec fn simple_of(slots: Seq<Option<Stack>>, n: int) -> Seq<(u32, int)>
    decreases n,
{
    if n <= 0 {
        Seq::empty()
    } else {
        match slots[n - 1] {
            Some(stack) => if stack.simple && stack.count > 0 {
                tallied(simple_of(slots, n - 1), stack.item, stack.count as int)
            } else {
                simple_of(slots, n - 1)
            },
            None => simple_of(slots, n - 1),
        }
    }
}

/// The stacks a recipe may take: the game passes over anything damaged, enchanted or named.
pub fn simple(slots: &Vec<Option<Stack>>) -> (r: Vec<(u32, u64)>)
    requires
        slots@.len() <= MOST_SLOTS,
    ensures
        tally_of(r@) == simple_of(slots@, slots@.len() as int),
        distinct(tally_of(r@)),
{
    let mut out: Vec<(u32, u64)> = Vec::new();
    let mut i: usize = 0;
    proof {
        assert(tally_of(out@) =~= Seq::empty());
    }
    while i < slots.len()
        invariant
            i <= slots@.len() <= MOST_SLOTS,
            tally_of(out@) == simple_of(slots@, i as int),
            distinct(tally_of(out@)),
            forall|k: int| 0 <= k < out@.len() ==> (#[trigger] out@[k]).1 <= i * 0x8000_0000,
        decreases slots@.len() - i,
    {
        if let Some(stack) = &slots[i] {
            if stack.simple && stack.count > 0 {
                tally(&mut out, stack.item, stack.count as u64, Ghost(i * 0x8000_0000));
            }
        }
        i += 1;
    }
    out
}

/// How many of the item are in the bag and on the hotbar.
pub open spec fn item_count(slots: Seq<Option<Stack>>, item: u32, n: int) -> int
    decreases n,
{
    if n <= BAG_START {
        0
    } else {
        item_count(slots, item, n - 1) + match slots[n - 1] {
            Some(stack) => if stack.item == item {
                stack.count as int
            } else {
                0
            },
            None => 0,
        }
    }
}

pub fn count(slots: &Vec<Option<Stack>>, item: u32) -> (r: i64)
    requires
        slots@.len() <= MOST_SLOTS,
    ensures
        r == item_count(slots@, item, slots@.len() as int),
        -0x8000_0000_0000_0000 <= r <= 0x7fff_ffff_0000_0000,
{
    let mut sum: i64 = 0;
    let mut i: usize = BAG_START;
    while i < slots.len()
        invariant
            BAG_START <= i,
            i <= slots@.len() || i == BAG_START,
            slots@.len() <= MOST_SLOTS,
            sum == item_count(slots@, item, i as int),
            -(i - BAG_START) * 0x8000_0000 <= sum <= (i - BAG_START) * 0x7fff_ffff,
        decreases slots@.len() - i,
    {
        if let Some(stack) = &slots[i] {
            if stack.item == item {
                sum = sum + stack.count as i64;
            }
        }
        i += 1;
    }
    sum
}

/// Whether the grid of a window has nothing to give yet: the window is not it, or its first slot is
/// empty.
pub fn result_empty(open: Option<(i32, &Vec<Option<Stack>>)>, window: i32) -> (r: bool)
    ensures
        r == match open {
            Some((id, slots)) => id != window || slots@.len() == 0 || slots@[0] is None,
            None => true,
        },
{
    match open {
        Some((id, slots)) => id != window || slots.len() <= RESULT_SLOT
            || slots[RESULT_SLOT].is_none(),
        None => true,
    }
}

/// A place so far from another on each axis.
pub open spec fn shifted(feet: BlockPos, x: int, y: int, z: int) -> BlockPos {
    BlockPos { x: (feet.x + x) as i32, y: (feet.y + y) as i32, z: (feet.z + z) as i32 }
}

/// Whether one offset comes before another on the walk through a cube.
pub open spec fn ahead(a: (int, int, int), b: (int, int, int)) -> bool {
    a.0 < b.0 || (a.0 == b.0 && (a.1 < b.1 || (a.1 == b.1 && a.2 < b.2)))
}

/// The square of how far an offset is.
pub open spec fn far(o: (int, int, int)) -> int {
    o.0 * o.0 + o.1 * o.1 + o.2 * o.2
}

/// Whether one offset is nearer than another, and of two as near the one walked first.
pub open spec fn nearer(a: (int, int, int), b: (int, int, int)) -> bool {
    far(a) < far(b) || (far(a) == far(b) && ahead(a, b))
}

pub open spec fn in_cube(o: (int, int, int), radius: int) -> bool {
    -radius <= o.0 <= radius && -radius <= o.1 <= radius && -radius <= o.2 <= radius
}

/// Whether every offset of a cube that is nearer than a given one holds no table.
pub open spec fn none_nearer<F: Fn(BlockPos) -> bool>(
    is_table: F,
    feet: BlockPos,
    radius: int,
    until: (int, int, int),
    found: Option<(int, int, int)>,
) -> bool {
    forall|x: int, y: int, z: int|
        #![trigger shifted(feet, x, y, z)]
        in_cube((x, y, z), radius) && ahead((x, y, z), until) && (found matches Some(o) ==> nearer(
            (x, y, z),
            o,
        )) ==> call_ensures(is_table, (shifted(feet, x, y, z),), false)
}

pub(crate) proof fn squares_are_bounded(x: int, radius: int)
    requires
        -radius <= x <= radius,
        0 <= radius <= 26754,
    ensures
        0 <= x * x <= 715776516,
{
    assert(0 <= x * x <= radius * radius) by (nonlinear_arith)
        requires
            -radius <= x <= radius,
            0 <= radius,
    ;
    assert(radius * radius <= 26754 * 26754) by (nonlinear_arith)
        requires
            0 <= radius <= 26754,
    ;
}

/// What is nearest of what a cube holds.
pub open spec fn nearest_of<F: Fn(BlockPos) -> bool>(
    is_table: F,
    feet: BlockPos,
    radius: int,
    found: Option<BlockPos>,
) -> bool {
    match found {
        Some(at) => exists|x: int, y: int, z: int|
            {
                &&& in_cube((x, y, z), radius)
                &&& at == #[trigger] shifted(feet, x, y, z)
                &&& call_ensures(is_table, (at,), true)
                &&& none_nearer(is_table, feet, radius, (radius + 1, 0, 0), Some((x, y, z)))
            },
        None => none_nearer(is_table, feet, radius, (radius + 1, 0, 0), None),
    }
}

/// The nearest crafting table within a cube around the bot's feet: of two as near the one whose x is
/// less, then whose y is, then whose z is.
#[verifier::rlimit(60)]
pub fn nearest_table<F: Fn(BlockPos) -> bool>(is_table: F, feet: BlockPos, radius: i32) -> (r: Option<
    BlockPos,
>)
    requires
        0 <= radius <= 26754,
        i32::MIN + radius <= feet.x <= i32::MAX - radius,
        i32::MIN + radius <= feet.y <= i32::MAX - radius,
        i32::MIN + radius <= feet.z <= i32::MAX - radius,
        forall|at: BlockPos| call_requires(is_table, (at,)),
    ensures
        nearest_of(is_table, feet, radius as int, r),
{
    let mut nearest: Option<(i32, BlockPos)> = None;
    let ghost mut found: Option<(int, int, int)> = None;
    let ghost wide = radius as int;
    let mut x: i32 = -radius;
    while x <= radius
        invariant
            0 <= radius <= 26754,
            wide == radius,
            -radius <= x <= radius + 1,
            i32::MIN + radius <= feet.x <= i32::MAX - radius,
            i32::MIN + radius <= feet.y <= i32::MAX - radius,
            i32::MIN + radius <= feet.z <= i32::MAX - radius,
            forall|at: BlockPos| call_requires(is_table, (at,)),
            none_nearer(is_table, feet, wide, (x as int, -wide, -wide), found),
            is_found(is_table, feet, wide, (x as int, -wide, -wide), nearest, found),
        decreases radius - x + 1,
    {
        let mut y: i32 = -radius;
        while y <= radius
            invariant
                0 <= radius <= 26754,
                wide == radius,
                -radius <= x <= radius,
                -radius <= y <= radius + 1,
                i32::MIN + radius <= feet.x <= i32::MAX - radius,
                i32::MIN + radius <= feet.y <= i32::MAX - radius,
                i32::MIN + radius <= feet.z <= i32::MAX - radius,
                forall|at: BlockPos| call_requires(is_table, (at,)),
                none_nearer(is_table, feet, wide, (x as int, y as int, -wide), found),
                is_found(is_table, feet, wide, (x as int, y as int, -wide), nearest, found),
            decreases radius - y + 1,
        {
            let mut z: i32 = -radius;
            while z <= radius
                invariant
                    0 <= radius <= 26754,
                    wide == radius,
                    -radius <= x <= radius,
                    -radius <= y <= radius,
                    -radius <= z <= radius + 1,
                    i32::MIN + radius <= feet.x <= i32::MAX - radius,
                    i32::MIN + radius <= feet.y <= i32::MAX - radius,
                    i32::MIN + radius <= feet.z <= i32::MAX - radius,
                    forall|at: BlockPos| call_requires(is_table, (at,)),
                    none_nearer(is_table, feet, wide, (x as int, y as int, z as int), found),
                    is_found(
                        is_table,
                        feet,
                        wide,
                        (x as int, y as int, z as int),
                        nearest,
                        found,
                    ),
                decreases radius - z + 1,
            {
                let at = BlockPos { x: feet.x + x, y: feet.y + y, z: feet.z + z };
                let ghost here = (x as int, y as int, z as int);
                let ghost before = found;
                proof {
                    assert(at == shifted(feet, here.0, here.1, here.2));
                    squares_are_bounded(x as int, wide);
                    squares_are_bounded(y as int, wide);
                    squares_are_bounded(z as int, wide);
                }
                let table: bool = is_table(at);
                if table {
                    let distance: i32 = x * x + y * y + z * z;
                    let closer: bool = match nearest {
                        Some((best, _)) => distance < best,
                        None => true,
                    };
                    if closer {
                        nearest = Some((distance, at));
                        proof {
                            found = Some(here);
                        }
                    }
                }
                proof {
                    step_on(is_table, feet, wide, here, before, found, table);
                }
                z += 1;
            }
            proof {
                row_done(is_table, feet, wide, x as int, y as int, found);
            }
            y += 1;
        }
        proof {
            layer_done(is_table, feet, wide, x as int, found);
        }
        x += 1;
    }
    proof {
        cube_done(is_table, feet, wide, found);
    }
    match nearest {
        Some((_, at)) => {
            proof {
                let o = found->0;
                assert(at == shifted(feet, o.0, o.1, o.2));
            }
            Some(at)
        },
        None => None,
    }
}

/// Whether what is kept as the nearest so far is where it was found.
spec fn is_found<F: Fn(BlockPos) -> bool>(
    is_table: F,
    feet: BlockPos,
    radius: int,
    until: (int, int, int),
    nearest: Option<(i32, BlockPos)>,
    found: Option<(int, int, int)>,
) -> bool {
    match (nearest, found) {
        (Some((distance, at)), Some(o)) => {
            &&& in_cube(o, radius)
            &&& ahead(o, until)
            &&& at == shifted(feet, o.0, o.1, o.2)
            &&& distance == far(o)
            &&& call_ensures(is_table, (at,), true)
        },
        (None, None) => true,
        _ => false,
    }
}

proof fn step_on<F: Fn(BlockPos) -> bool>(
    is_table: F,
    feet: BlockPos,
    radius: int,
    here: (int, int, int),
    before: Option<(int, int, int)>,
    found: Option<(int, int, int)>,
    table: bool,
)
    requires
        none_nearer(is_table, feet, radius, here, before),
        call_ensures(is_table, (shifted(feet, here.0, here.1, here.2),), table),
        before matches Some(o) ==> ahead(o, here),
        found == if table && (before matches Some(o) ==> far(here) < far(o)) {
            Some(here)
        } else {
            before
        },
    ensures
        none_nearer(is_table, feet, radius, (here.0, here.1, here.2 + 1), found),
{
    assert forall|x: int, y: int, z: int|
        #![trigger shifted(feet, x, y, z)]
        in_cube((x, y, z), radius) && ahead((x, y, z), (here.0, here.1, here.2 + 1)) && (
        found matches Some(o) ==> nearer((x, y, z), o)) implies call_ensures(
        is_table,
        (shifted(feet, x, y, z),),
        false,
    ) by {
        if (x, y, z) != here {
            assert(ahead((x, y, z), here));
        }
    }
}

proof fn row_done<F: Fn(BlockPos) -> bool>(
    is_table: F,
    feet: BlockPos,
    radius: int,
    x: int,
    y: int,
    found: Option<(int, int, int)>,
)
    requires
        none_nearer(is_table, feet, radius, (x, y, radius + 1), found),
    ensures
        none_nearer(is_table, feet, radius, (x, y + 1, -radius), found),
{
}

proof fn layer_done<F: Fn(BlockPos) -> bool>(
    is_table: F,
    feet: BlockPos,
    radius: int,
    x: int,
    found: Option<(int, int, int)>,
)
    requires
        none_nearer(is_table, feet, radius, (x, radius + 1, -radius), found),
    ensures
        none_nearer(is_table, feet, radius, (x + 1, -radius, -radius), found),
{
}

proof fn cube_done<F: Fn(BlockPos) -> bool>(
    is_table: F,
    feet: BlockPos,
    radius: int,
    found: Option<(int, int, int)>,
)
    requires
        none_nearer(is_table, feet, radius, (radius + 1, -radius, -radius), found),
    ensures
        none_nearer(is_table, feet, radius, (radius + 1, 0, 0), found),
{
}

/// How much each of some recipes is short of.
pub open spec fn shortfalls(
    recipes: Seq<Recipe>,
    known: Known,
    held: Map<Seq<char>, u64>,
    places: Seq<int>,
) -> Seq<u64> {
    Seq::new(
        places.len(),
        |i: int| short_of(held, needed_of(recipes[places[i]], known)).len() as u64,
    )
}

/// Some recipes with those that miss the fewest ingredients first.
pub open spec fn by_shortfall_of(
    recipes: Seq<Recipe>,
    known: Known,
    held: Map<Seq<char>, u64>,
    places: Seq<int>,
) -> Seq<int> {
    let order = order_of(shortfalls(recipes, known, held, places));
    Seq::new(places.len(), |i: int| places[order[i]])
}

/// Fewest missing ingredients first, which is what a caller is told to go and get.
pub fn by_shortfall(
    recipes: &Vec<Recipe>,
    known: &Known,
    held: &Table<String, u64>,
    places: &Vec<usize>,
) -> (r: Vec<usize>)
    requires
        places_in(places@, recipes@.len() as int),
    ensures
        ints(r@) == by_shortfall_of(recipes@, *known, held@, ints(places@)),
        places_in(r@, recipes@.len() as int),
{
    let mut keys: Vec<u64> = Vec::new();
    let mut i: usize = 0;
    while i < places.len()
        invariant
            i <= places@.len(),
            places_in(places@, recipes@.len() as int),
            keys@.len() == i,
            forall|k: int|
                0 <= k < i ==> (#[trigger] keys@[k]) == shortfalls(
                    recipes@,
                    *known,
                    held@,
                    ints(places@),
                )[k],
        decreases places@.len() - i,
    {
        let at: usize = places[i];
        let short = missing(held, &ingredients(&recipes[at], known));
        proof {
            assert(ints(places@)[i as int] == at as int);
            assert(tally_of(short@).len() == short@.len());
        }
        keys.push(short.len() as u64);
        i += 1;
    }
    proof {
        assert(keys@ =~= shortfalls(recipes@, *known, held@, ints(places@)));
    }
    let order = order_by(&keys);
    let ghost wanted = by_shortfall_of(recipes@, *known, held@, ints(places@));
    proof {
        assert(ints(order@).len() == places@.len());
        assert forall|k: int| 0 <= k < order@.len() implies (#[trigger] order@[k]) < places@.len()
            && wanted[k] == places@[order@[k] as int] by {
            assert(ints(order@)[k] == order@[k] as int);
            assert(ints(order@).contains(ints(order@)[k]));
            assert(ints(places@)[order@[k] as int] == places@[order@[k] as int] as int);
        }
    }
    let mut out: Vec<usize> = Vec::new();
    let mut j: usize = 0;
    while j < order.len()
        invariant
            j <= order@.len() == places@.len() == wanted.len(),
            places_in(places@, recipes@.len() as int),
            forall|k: int|
                0 <= k < order@.len() ==> (#[trigger] order@[k]) < places@.len() && wanted[k]
                    == places@[order@[k] as int],
            out@.len() == j,
            forall|k: int|
                0 <= k < j ==> (#[trigger] out@[k]) == wanted[k] && out@[k] < recipes@.len(),
        decreases order@.len() - j,
    {
        out.push(places[order[j]]);
        j += 1;
    }
    proof {
        assert(ints(out@) =~= wanted);
    }
    out
}

/// Putting recipes in order leaves out none of them and adds none, and a recipe never comes behind one
/// that misses more.
pub proof fn shortfall_orders_what_there_is(
    recipes: Seq<Recipe>,
    known: Known,
    held: Map<Seq<char>, u64>,
    places: Seq<int>,
    order: Seq<int>,
    a: int,
    b: int,
)
    requires
        in_order(shortfalls(recipes, known, held, places), order, places.len() as int),
        0 <= a < b < places.len(),
    ensures
        by_shortfall_of(recipes, known, held, places).len() == places.len(),
        by_shortfall_of(recipes, known, held, places)[a] == places[order[a]],
        shortfalls(recipes, known, held, places)[order[a]] <= shortfalls(
            recipes,
            known,
            held,
            places,
        )[order[b]],
        forall|i: int| 0 <= i < places.len() ==> #[trigger] order.contains(i),
{
    let keys = shortfalls(recipes, known, held, places);
    one_order_only(keys, order, order_of(keys));
    assert(precedes(keys, order[a], order[b]));
}

/// The recipes of a book for one item, as they are answered.
pub open spec fn recipe_docs(
    recipes: Seq<Recipe>,
    known: Known,
    held: Map<Seq<char>, u64>,
    places: Seq<int>,
) -> Seq<Doc> {
    Seq::new(places.len(), |i: int| recipe_doc(recipes[places[i]], known, held))
}

/// The recipes for one item, those that miss the fewest ingredients first.
pub open spec fn taught_for(
    recipes: Seq<Recipe>,
    known: Known,
    held: Map<Seq<char>, u64>,
    item: Seq<char>,
) -> Seq<int> {
    by_shortfall_of(
        recipes,
        known,
        held,
        producing_of(recipes, known, item, recipes.len() as int),
    )
}

fn describe_all(
    recipes: &Vec<Recipe>,
    known: &Known,
    held: &Table<String, u64>,
    places: &Vec<usize>,
) -> (r: Vec<Json>)
    requires
        places_in(places@, recipes@.len() as int),
    ensures
        docs(r@) == recipe_docs(recipes@, *known, held@, ints(places@)),
{
    let mut out: Vec<Json> = Vec::new();
    let mut i: usize = 0;
    while i < places.len()
        invariant
            i <= places@.len(),
            places_in(places@, recipes@.len() as int),
            out@.len() == i,
            forall|k: int|
                0 <= k < i ==> (#[trigger] out@[k])@ == recipe_docs(
                    recipes@,
                    *known,
                    held@,
                    ints(places@),
                )[k],
        decreases places@.len() - i,
    {
        let at: usize = places[i];
        proof {
            assert(ints(places@)[i as int] == at as int);
        }
        out.push(describe(&recipes[at], known, held));
        i += 1;
    }
    proof {
        assert(docs(out@) =~= recipe_docs(recipes@, *known, held@, ints(places@)));
    }
    out
}

/// What can-craft answers of an item. `table` says whether a crafting table is in reach.
pub fn craftable_answer(
    recipes: &Vec<Recipe>,
    known: &Known,
    held: &Table<String, u64>,
    item: &str,
    table: bool,
) -> (r: Answer)
    ensures
        r@ == AnswerView::full(
            "can-craft"@,
            ({
                let found = taught_for(recipes@, *known, held@, item@);
                let asked = Doc::object().with("item"@, Doc::Text(item@)).with(
                    "onlyWhatTheBotKnows"@,
                    Doc::Bool(true),
                );
                if found.len() == 0 {
                    asked.with("craftable"@, Doc::Bool(false)).with(
                        "hasRecipe"@,
                        Doc::Bool(false),
                    ).with("missing"@, Doc::list(Seq::empty())).with(
                        "needsTable"@,
                        Doc::Bool(false),
                    )
                } else {
                    let closest = recipes@[found[0]];
                    let short = short_of(held@, needed_of(closest, *known));
                    let needs = closest.display.wants_table() && !table;
                    asked.with("craftable"@, Doc::Bool(short.len() == 0 && !needs)).with(
                        "hasRecipe"@,
                        Doc::Bool(true),
                    ).with("missing"@, Doc::list(count_docs(short))).with(
                        "needsTable"@,
                        Doc::Bool(needs),
                    )
                }
            }),
        ),
{
    let places = producing(recipes, known, item);
    let found = by_shortfall(recipes, known, held, &places);
    let ghost wanted = taught_for(recipes@, *known, held@, item@);
    proof {
        assert(ints(found@) == wanted);
        assert(ints(found@).len() == found@.len());
    }
    let asked = Json::object().with("item", Json::text(item)).with(
        "onlyWhatTheBotKnows",
        Json::Bool(true),
    );
    if found.len() == 0 {
        let none: Vec<Json> = Vec::new();
        proof {
            assert(docs(none@) =~= Seq::<Doc>::empty());
        }
        return Answer::data(
            "can-craft".to_owned(),
            asked.with("craftable", Json::Bool(false)).with("hasRecipe", Json::Bool(false)).with(
                "missing",
                Json::list(none),
            ).with("needsTable", Json::Bool(false)),
        );
    }
    proof {
        assert(ints(found@)[0] == found@[0] as int);
    }
    let closest = &recipes[found[0]];
    let short = missing(held, &ingredients(closest, known));
    proof {
        assert(tally_of(short@).len() == short@.len());
    }
    let needs: bool = closest.display.requires_table() && !table;
    Answer::data(
        "can-craft".to_owned(),
        asked.with("craftable", Json::Bool(short.len() == 0 && !needs)).with(
            "hasRecipe",
            Json::Bool(true),
        ).with("missing", Json::list(counts(&short))).with("needsTable", Json::Bool(needs)),
    )
}

/// What get-recipe answers: every taught recipe for one item, with what the inventory is still short
/// of. `stoppedAt` is always null: only list-recipes' unrestricted scan can run out of room.
pub fn get_recipe(
    recipes: &Vec<Recipe>,
    known: &Known,
    held: &Table<String, u64>,
    item: &str,
    table: bool,
) -> (r: Answer)
    ensures
        r@ == AnswerView::full(
            "get-recipe"@,
            Doc::object().with("item"@, Doc::Text(item@)).with(
                "tableInReach"@,
                Doc::Bool(table),
            ).with("stoppedAt"@, Doc::Null).with(
                "recipes"@,
                Doc::list(
                    recipe_docs(
                        recipes@,
                        *known,
                        held@,
                        taught_for(recipes@, *known, held@, item@),
                    ),
                ),
            ).with("onlyWhatTheBotKnows"@, Doc::Bool(true)),
        ),
{
    let places = producing(recipes, known, item);
    let found = by_shortfall(recipes, known, held, &places);
    let all = describe_all(recipes, known, held, &found);
    Answer::data(
        "get-recipe".to_owned(),
        Json::object().with("item", Json::text(item)).with("tableInReach", Json::Bool(table)).with(
            "stoppedAt",
            Json::Null,
        ).with("recipes", Json::list(all)).with("onlyWhatTheBotKnows", Json::Bool(true)),
    )
}

/// Whether a recipe can be made right now. Craftable right now means right now: a recipe that needs a
/// table out of reach is not one.
pub open spec fn now(recipe: Recipe, known: Known, held: Map<Seq<char>, u64>, table: bool) -> bool {
    &&& recipe.display.crafts()
    &&& !recipe.display.wants_table() || table
    &&& short_of(held, needed_of(recipe, known)).len() == 0
}

/// The places of the recipes among the first `n` that can be made right now, as far as they are
/// listed.
pub open spec fn craftable_now(
    recipes: Seq<Recipe>,
    known: Known,
    held: Map<Seq<char>, u64>,
    table: bool,
    n: int,
) -> Seq<int>
    decreases n,
{
    if n <= 0 {
        Seq::empty()
    } else {
        let before = craftable_now(recipes, known, held, table, n - 1);
        if before.len() < MAX_LISTED && now(recipes[n - 1], known, held, table) {
            before.push(n - 1)
        } else {
            before
        }
    }
}

/// What list-recipes answers: what the bot could make right now, or every taught recipe for one item.
pub fn list_recipes(
    recipes: &Vec<Recipe>,
    known: &Known,
    held: &Table<String, u64>,
    item: Option<&str>,
    table: bool,
) -> (r: Answer)
    ensures
        r@ == AnswerView::full(
            "list-recipes"@,
            ({
                let told = Doc::object().with("tableInReach"@, Doc::Bool(table)).with(
                    "onlyWhatTheBotKnows"@,
                    Doc::Bool(true),
                );
                match item {
                    Some(item) => told.with("item"@, Doc::Text(item@)).with(
                        "stoppedAt"@,
                        Doc::Null,
                    ).with(
                        "recipes"@,
                        Doc::list(
                            recipe_docs(
                                recipes@,
                                *known,
                                held@,
                                taught_for(recipes@, *known, held@, item@),
                            ),
                        ),
                    ),
                    None => {
                        let found = craftable_now(
                            recipes@,
                            *known,
                            held@,
                            table,
                            recipes@.len() as int,
                        );
                        told.with("item"@, Doc::Null).with(
                            "stoppedAt"@,
                            if found.len() >= MAX_LISTED {
                                Doc::number(MAX_LISTED as int)
                            } else {
                                Doc::Null
                            },
                        ).with("recipes"@, Doc::list(recipe_docs(recipes@, *known, held@, found)))
                    },
                }
            }),
        ),
{
    let told = Json::object().with("tableInReach", Json::Bool(table)).with(
        "onlyWhatTheBotKnows",
        Json::Bool(true),
    );
    if let Some(item) = item {
        let places = producing(recipes, known, item);
        let found = by_shortfall(recipes, known, held, &places);
        let all = describe_all(recipes, known, held, &found);
        return Answer::data(
            "list-recipes".to_owned(),
            told.with("item", Json::text(item)).with("stoppedAt", Json::Null).with(
                "recipes",
                Json::list(all),
            ),
        );
    }
    let mut found: Vec<usize> = Vec::new();
    let mut i: usize = 0;
    proof {
        assert(ints(found@) =~= Seq::<int>::empty());
    }
    while i < recipes.len()
        invariant
            i <= recipes@.len(),
            ints(found@) == craftable_now(recipes@, *known, held@, table, i as int),
            places_in(found@, i as int),
        decreases recipes@.len() - i,
    {
        let recipe = &recipes[i];
        proof {
            assert(ints(found@).len() == found@.len());
        }
        if found.len() < MAX_LISTED && recipe.display.is_crafting() && (
        !recipe.display.requires_table() || table) {
            let short = missing(held, &ingredients(recipe, known));
            proof {
                assert(tally_of(short@).len() == short@.len());
            }
            if short.len() == 0 {
                let ghost before = found@;
                found.push(i);
                proof {
                    assert(ints(found@) =~= ints(before).push(i as int));
                }
            }
        }
        i += 1;
    }
    proof {
        assert(ints(found@).len() == found@.len());
    }
    let all = describe_all(recipes, known, held, &found);
    let stopped = if found.len() >= MAX_LISTED {
        Json::count(MAX_LISTED as u64)
    } else {
        Json::Null
    };
    Answer::data(
        "list-recipes".to_owned(),
        told.with("item", Json::Null).with("stoppedAt", stopped).with("recipes", Json::list(all)),
    )
}

/// The first of some recipes from a place on that fits the player's own grid.
pub open spec fn fitting(recipes: Seq<Recipe>, places: Seq<int>, from: int) -> Option<int>
    decreases places.len() - from,
{
    if from < 0 || from >= places.len() {
        None
    } else if !recipes[places[from]].display.wants_table() {
        Some(places[from])
    } else {
        fitting(recipes, places, from + 1)
    }
}

/// The recipe the book holds for an item, preferring one that fits the player's own grid.
pub open spec fn known_of(recipes: Seq<Recipe>, known: Known, item: Seq<char>) -> Option<int> {
    let places = producing_of(recipes, known, item, recipes.len() as int);
    match fitting(recipes, places, 0) {
        Some(at) => Some(at),
        None => if places.len() > 0 {
            Some(places[0])
        } else {
            None
        },
    }
}

/// The recipe the book holds for this item, preferring one that fits the player's own grid.
pub fn known(recipes: &Vec<Recipe>, tags: &Known, item: &str) -> (r: Option<usize>)
    ensures
        match r {
            Some(at) => known_of(recipes@, *tags, item@) == Some(at as int) && at < recipes@.len(),
            None => known_of(recipes@, *tags, item@) is None,
        },
{
    let places = producing(recipes, tags, item);
    let ghost all = ints(places@);
    proof {
        assert(all.len() == places@.len());
    }
    let mut i: usize = 0;
    while i < places.len()
        invariant
            i <= places@.len() == all.len(),
            all == ints(places@),
            all == producing_of(recipes@, *tags, item@, recipes@.len() as int),
            places_in(places@, recipes@.len() as int),
            fitting(recipes@, all, 0) == fitting(recipes@, all, i as int),
        decreases places@.len() - i,
    {
        proof {
            assert(all[i as int] == places@[i as int] as int);
        }
        if !recipes[places[i]].display.requires_table() {
            return Some(places[i]);
        }
        i += 1;
    }
    if places.len() > 0 {
        proof {
            assert(all[0] == places@[0] as int);
        }
        Some(places[0])
    } else {
        None
    }
}

/// How many of an item a craft makes.
pub open spec fn made_from(stacks: Seq<(u32, i32)>, output: u32, from: int) -> int
    decreases stacks.len() - from,
{
    if from < 0 || from >= stacks.len() {
        1
    } else if stacks[from].0 == output {
        stacks[from].1 as int
    } else {
        made_from(stacks, output, from + 1)
    }
}

pub fn per_craft(recipe: &Recipe, known: &Known, output: u32) -> (r: i32)
    ensures
        r == made_from(stacks_in(recipe.display.made(), *known), output, 0),
{
    let stacks = stacks_of(recipe.display.result(), known);
    let mut i: usize = 0;
    while i < stacks.len()
        invariant
            i <= stacks@.len(),
            stacks@ == stacks_in(recipe.display.made(), *known),
            made_from(stacks@, output, 0) == made_from(stacks@, output, i as int),
        decreases stacks@.len() - i,
    {
        if stacks[i].0 == output {
            return stacks[i].1;
        }
        i += 1;
    }
    1
}

/// What craft-item says of an item it cannot craft, or the place of the recipe it goes by.
pub open spec fn plan_of(
    recipes: Seq<Recipe>,
    known: Known,
    simple: Seq<(u32, u64)>,
    name: Seq<char>,
    table: bool,
) -> Result<int, FailureView> {
    match known_of(recipes, known, name) {
        None => Err(
            FailureView::refusal(
                "NO_RECIPE"@,
                "No recipe produces "@ + name
                    + ", or the server has not unlocked one for this bot. A client is only told the recipes its book holds."@,
            ),
        ),
        Some(at) => if !craftable(recipes[at], known, simple) {
            Err(
                FailureView::refusal(
                    "MISSING_INGREDIENTS"@,
                    "Cannot craft "@ + name
                        + ". The recipe is known but the ingredients are not all in the inventory."@,
                ),
            )
        } else if !table && recipes[at].display.wants_table() {
            Err(
                FailureView::refusal(
                    "NO_CRAFTING_TABLE"@,
                    "Crafting "@ + name
                        + " needs a grid bigger than the two-by-two a player carries, and no crafting table is within "@
                        + dec(TABLE_SEARCH as int) + " blocks."@,
                ),
            )
        } else {
            Ok(at)
        },
    }
}

/// The recipe that craft-item goes by, or what is said instead. `table` says whether a crafting table
/// was found.
pub fn plan(
    recipes: &Vec<Recipe>,
    tags: &Known,
    simple: &Vec<(u32, u64)>,
    name: &str,
    table: bool,
) -> (r: Result<usize, Failure>)
    ensures
        match r {
            Ok(at) => plan_of(recipes@, *tags, simple@, name@, table) == Ok::<int, FailureView>(
                at as int,
            ) && at < recipes@.len(),
            Err(failure) => plan_of(recipes@, *tags, simple@, name@, table) == Err::<
                int,
                FailureView,
            >(failure@),
        },
{
    let at: usize = match known(recipes, tags, name) {
        Some(at) => at,
        None => {
            return Err(
                Failure::refused(
                    "NO_RECIPE",
                    cat3(
                        "No recipe produces ",
                        name,
                        ", or the server has not unlocked one for this bot. A client is only told the recipes its book holds.",
                    ),
                ),
            );
        },
    };
    let recipe = &recipes[at];
    if !can_craft(recipe, tags, simple) {
        return Err(
            Failure::refused(
                "MISSING_INGREDIENTS",
                cat3(
                    "Cannot craft ",
                    name,
                    ". The recipe is known but the ingredients are not all in the inventory.",
                ),
            ),
        );
    }
    if !table && recipe.display.requires_table() {
        return Err(
            Failure::refused(
                "NO_CRAFTING_TABLE",
                cat5(
                    "Crafting ",
                    name,
                    " needs a grid bigger than the two-by-two a player carries, and no crafting table is within ",
                    signed(TABLE_SEARCH as i64).as_str(),
                    " blocks.",
                ),
            ),
        );
    }
    Ok(at)
}

/// A number cut to 32 bits, as the game counts.
pub open spec fn in_32_bits(n: int) -> int {
    let low = n % 0x1_0000_0000;
    if low < 0x8000_0000 {
        low
    } else {
        low - 0x1_0000_0000
    }
}

fn cut_to_32_bits(n: i64) -> (r: i64)
    ensures
        r == in_32_bits(n as int),
        -0x8000_0000 <= r <= 0x7fff_ffff,
{
    let low: i64 = wrapped_u32(n) as i64;
    if low < 0x8000_0000 {
        low
    } else {
        low - 0x1_0000_0000
    }
}

/// What is said where a recipe was placed and nothing came of it.
pub open spec fn nothing_appeared(name: Seq<char>, made: int, per_craft: int) -> FailureView {
    FailureView::refusal(
        "NOTHING_CRAFTED"@,
        "The server placed "@ + name + "'s recipe but no result appeared."@ + if made == 0 {
            ""@
        } else {
            " "@ + dec(in_32_bits(made) * per_craft) + " were made before that."@
        },
    )
}

/// Crafts, one after another: one at a time rather than a shift-click on the result, because a
/// shift-click makes as many as the ingredients allow and the caller asked for a number.
#[derive(Clone, Copy, Debug, PartialEq, Eq, Structural)]
pub struct Crafts {
    pub amount: i64,
    pub made: i64,
    /// How many looks at an empty result this craft has had.
    pub waited: u32,
}

/// What comes of a look at the grid.
pub enum Look {
    /// The result is there: take it.
    Take,
    /// Look again on the next tick.
    Tick,
    Failed(Failure),
}

impl Crafts {
    pub open spec fn valid(&self) -> bool {
        0 <= self.made
    }

    pub fn new(amount: i64) -> (r: Crafts)
        ensures
            r == (Crafts { amount, made: 0, waited: 0 }),
            r.valid(),
    {
        Crafts { amount, made: 0, waited: 0 }
    }

    /// Whether another craft is to be placed; where it is, its wait begins.
    pub fn another(&mut self) -> (r: bool)
        requires
            old(self).valid(),
        ensures
            r == (old(self).made < old(self).amount),
            *final(self) == if r {
                Crafts { waited: 0, ..*old(self) }
            } else {
                *old(self)
            },
            final(self).valid(),
    {
        if self.made < self.amount {
            self.waited = 0;
            true
        } else {
            false
        }
    }

    /// A look at the grid of a craft that was placed: whether its result is still empty. `per_craft`
    /// is how many of the item a craft makes.
    pub fn look(&mut self, empty: bool, name: &str, per_craft: i32) -> (r: Look)
        requires
            old(self).valid(),
            old(self).waited < u32::MAX,
            old(self).made < old(self).amount,
        ensures
            final(self).valid(),
            !empty ==> r is Take && *final(self) == (Crafts {
                made: (old(self).made + 1) as i64,
                ..*old(self)
            }),
            empty ==> *final(self) == (Crafts { waited: (old(self).waited + 1) as u32, ..*old(self)
            }),
            empty && old(self).waited < PATIENCE_TICKS ==> r is Tick,
            empty && old(self).waited >= PATIENCE_TICKS ==> (r matches Look::Failed(failure)
                && failure@ == nothing_appeared(name@, old(self).made as int, per_craft as int)),
    {
        if !empty {
            self.made = self.made + 1;
            return Look::Take;
        }
        self.waited = self.waited + 1;
        if self.waited <= PATIENCE_TICKS {
            return Look::Tick;
        }
        let before: String = if self.made == 0 {
            "".to_owned()
        } else {
            let low: i64 = cut_to_32_bits(self.made);
            proof {
                product_fits(low as int, per_craft as int);
            }
            cat3(" ", signed(low * per_craft as i64).as_str(), " were made before that.")
        };
        Look::Failed(
            Failure::refused(
                "NOTHING_CRAFTED",
                cat4(
                    "The server placed ",
                    name,
                    "'s recipe but no result appeared.",
                    before.as_str(),
                ),
            ),
        )
    }
}

proof fn product_fits(a: int, b: int)
    requires
        -0x8000_0000 <= a <= 0x7fff_ffff,
        -0x8000_0000 <= b <= 0x7fff_ffff,
    ensures
        i64::MIN <= a * b <= i64::MAX,
{
    assert(-0x4000_0000_0000_0000 <= a * b <= 0x4000_0000_0000_0000) by (nonlinear_arith)
        requires
            -0x8000_0000 <= a <= 0x7fff_ffff,
            -0x8000_0000 <= b <= 0x7fff_ffff,
    ;
}

/// A look at what the inventory gained: the answer, where it gained something. Counted rather than
/// predicted: what the inventory actually gained cannot claim a craft that did not happen, which is a
/// thing another kind of bot has done.
pub fn crafted(name: &str, before: i64, now: i64) -> (r: Option<Answer>)
    requires
        i64::MIN <= now - before <= i64::MAX,
    ensures
        match r {
            Some(answer) => now > before && answer@ == AnswerView::plain(
                "Crafted "@ + name@ + " x"@ + dec(now - before) + "."@,
            ),
            None => now <= before,
        },
{
    let gained: i64 = now - before;
    if gained > 0 {
        Some(Answer::text(cat5("Crafted ", name, " x", signed(gained).as_str(), ".")))
    } else {
        None
    }
}

/// What is said where the crafts were made and the inventory gained nothing, look after look.
pub fn nothing_gained(name: &str) -> (r: Failure)
    ensures
        r@ == FailureView::refusal(
            "NOTHING_CRAFTED"@,
            "Nothing was crafted. The recipe for "@ + name@
                + " was found and placed, but the inventory did not gain any."@,
        ),
{
    Failure::refused(
        "NOTHING_CRAFTED",
        cat3(
            "Nothing was crafted. The recipe for ",
            name,
            " was found and placed, but the inventory did not gain any.",
        ),
    )
}

/// What is said of a name that is no item's.
pub fn no_such_item(asked: &str) -> (r: Failure)
    ensures
        r@ == FailureView::refusal(
            "NO_SUCH_ITEM"@,
            "\""@ + asked@ + "\" is not an item in this version."@,
        ),
{
    Failure::refused("NO_SUCH_ITEM", cat3("\"", asked, "\" is not an item in this version."))
}

/// A shaped recipe is made without a table exactly where it fits the two-by-two a player carries, one
/// way and the other; a shapeless one where it has no more ingredients than that grid has slots.
pub proof fn a_table_is_for_what_does_not_fit_the_grid(display: RecipeDisplay)
    ensures
        PLAYER_GRID == 2,
        display matches RecipeDisplay::Shaped { width, height, .. } ==> (display.wants_table()
            <==> width >= 3 || height >= 3),
        display matches RecipeDisplay::Shapeless { ingredients, .. } ==> (display.wants_table()
            <==> ingredients@.len() >= 5),
        !display.crafts() ==> display.wants_table(),
        display.crafts() <==> display is Shaped || display is Shapeless,
{
}

/// What is told of a recipe: what it makes, what that takes, what of it is missing, and whether it
/// wants a table.
pub proof fn a_recipe_is_told_as_it_stands(recipe: Recipe, known: Known, held: Map<Seq<char>, u64>)
    ensures
        ({
            let told = recipe_doc(recipe, known, held);
            let makes = stacks_in(recipe.display.made(), known);
            &&& told.items_at("ingredients"@) == Some(count_docs(needed_of(recipe, known)))
            &&& told.items_at("missing"@) == Some(
                count_docs(short_of(held, needed_of(recipe, known))),
            )
            &&& recipe.display matches RecipeDisplay::Shaped { width, height, .. }
                ==> told.bool_at("requiresTable"@) == Some(width > 2 || height > 2)
            &&& recipe.display matches RecipeDisplay::Shapeless { ingredients, .. }
                ==> told.bool_at("requiresTable"@) == Some(ingredients@.len() > 4)
            &&& makes.len() > 0 ==> {
                &&& told.at("result"@)->0.text_at("name"@) == Some(path_of(known, makes[0].0))
                &&& told.at("result"@)->0.at("count"@) == Some(Doc::number(makes[0].1 as int))
            }
        }),
{
    broadcast use {a_field_reads_back, an_empty_object_has_nothing};
    reveal_strlit("result");
    reveal_strlit("ingredients");
    reveal_strlit("missing");
    reveal_strlit("requiresTable");
    reveal_strlit("name");
    reveal_strlit("count");
    assert("result"@.len() == 6);
    assert("ingredients"@.len() == 11);
    assert("missing"@.len() == 7);
    assert("requiresTable"@.len() == 13);
    assert("name"@.len() == 4);
    assert("count"@.len() == 5);
}

/// Something counted is told by its name and its number.
pub proof fn a_count_is_told_by_name_and_number(counted: Seq<(Seq<char>, int)>, i: int)
    requires
        0 <= i < counted.len(),
    ensures
        count_docs(counted).len() == counted.len(),
        count_docs(counted)[i].text_at("name"@) == Some(counted[i].0),
        count_docs(counted)[i].at("count"@) == Some(Doc::number(counted[i].1)),
{
    broadcast use {a_field_reads_back, an_empty_object_has_nothing};
    reveal_strlit("name");
    reveal_strlit("count");
    assert("name"@.len() == 4);
    assert("count"@.len() == 5);
}

/// What is missing of an ingredient is exactly what is needed of it beyond what is held.
pub proof fn what_is_missing_is_needed_beyond_what_is_held(
    held: Map<Seq<char>, u64>,
    needed: Seq<(Seq<char>, int)>,
    name: Seq<char>,
    gap: int,
)
    ensures
        short_of(held, needed).contains((name, gap)) <==> gap > 0 && needed.contains(
            (name, gap + if held.dom().contains(name) {
                held[name] as int
            } else {
                0
            }),
        ),
    decreases needed.len(),
{
    let have = held_in(held, name);
    if needed.len() > 0 {
        let rest = needed.drop_last();
        what_is_missing_is_needed_beyond_what_is_held(held, rest, name, gap);
        let short = short_of(held, rest);
        let all = short_of(held, needed);
        if all.contains((name, gap)) {
            let i = all.index_of((name, gap));
            if i < short.len() {
                assert(short[i] == (name, gap));
                let j = rest.index_of((name, gap + have));
                assert(needed[j] == (name, gap + have));
            } else {
                assert(needed[needed.len() - 1] == (name, gap + have));
            }
        }
        if gap > 0 && needed.contains((name, gap + have)) {
            let j = needed.index_of((name, gap + have));
            if j < rest.len() {
                assert(rest[j] == (name, gap + have));
                let i = short.index_of((name, gap));
                assert(all[i] == (name, gap));
            } else {
                assert(all[all.len() - 1] == (name, gap));
            }
        }
    }
}

/// The recipes for an item are the crafting recipes whose result is called that, and no others.
pub proof fn the_recipes_for_an_item_make_it(
    recipes: Seq<Recipe>,
    known: Known,
    item: Seq<char>,
    n: int,
    at: int,
)
    requires
        0 <= n <= recipes.len(),
    ensures
        producing_of(recipes, known, item, n).contains(at) <==> 0 <= at < n && (
        recipes[at].display is Shaped || recipes[at].display is Shapeless) && exists|i: int|
            0 <= i < stacks_in(recipes[at].display.made(), known).len() && path_of(
                known,
                (#[trigger] stacks_in(recipes[at].display.made(), known)[i]).0,
            ) == item,
    decreases n,
{
    if n > 0 {
        let before = producing_of(recipes, known, item, n - 1);
        let all = producing_of(recipes, known, item, n);
        the_recipes_for_an_item_make_it(recipes, known, item, n - 1, at);
        if all.contains(at) {
            let i = all.index_of(at);
            if i < before.len() {
                assert(before[i] == at);
            }
        }
        if before.contains(at) {
            let i = before.index_of(at);
            assert(all[i] == at);
        }
        if all.len() > before.len() {
            assert(all[before.len() as int] == n - 1);
        }
    }
}

proof fn fitting_fits(recipes: Seq<Recipe>, places: Seq<int>, from: int)
    requires
        0 <= from,
    ensures
        match fitting(recipes, places, from) {
            Some(at) => places.contains(at) && !recipes[at].display.wants_table(),
            None => forall|i: int|
                from <= i < places.len() ==> recipes[#[trigger] places[i]].display.wants_table(),
        },
    decreases places.len() - from,
{
    if from < places.len() {
        fitting_fits(recipes, places, from + 1);
        assert(places.contains(places[from]));
    }
}

/// The recipe that is made makes the item, and it is one that needs no table wherever there is one.
pub proof fn a_recipe_without_a_table_is_preferred(
    recipes: Seq<Recipe>,
    known: Known,
    item: Seq<char>,
    other: int,
)
    requires
        producing_of(recipes, known, item, recipes.len() as int).contains(other),
    ensures
        known_of(recipes, known, item) matches Some(at) && producing_of(
            recipes,
            known,
            item,
            recipes.len() as int,
        ).contains(at) && (!recipes[other].display.wants_table()
            ==> !recipes[at].display.wants_table()),
{
    let places = producing_of(recipes, known, item, recipes.len() as int);
    fitting_fits(recipes, places, 0);
    let i = places.index_of(other);
    assert(places[i] == other);
    assert(places.contains(places[0]));
}

/// A recipe is planned only where it is known, all of it can be served, and there is a table where it
/// wants one; each refusal says which of these fails, in that order.
pub proof fn a_craft_is_planned_where_it_can_be_made(
    recipes: Seq<Recipe>,
    known: Known,
    simple: Seq<(u32, u64)>,
    name: Seq<char>,
    table: bool,
)
    ensures
        match known_of(recipes, known, name) {
            None => plan_of(recipes, known, simple, name, table) matches Err(failure) && failure.code
                == "NO_RECIPE"@,
            Some(at) => {
                &&& !craftable(recipes[at], known, simple) ==> (plan_of(
                    recipes,
                    known,
                    simple,
                    name,
                    table,
                ) matches Err(failure) && failure.code == "MISSING_INGREDIENTS"@)
                &&& craftable(recipes[at], known, simple) && recipes[at].display.wants_table()
                    && !table ==> (plan_of(recipes, known, simple, name, table) matches Err(failure)
                    && failure.code == "NO_CRAFTING_TABLE"@)
                &&& craftable(recipes[at], known, simple) && (table
                    || !recipes[at].display.wants_table()) ==> plan_of(
                    recipes,
                    known,
                    simple,
                    name,
                    table,
                ) == Ok::<int, FailureView>(at)
            },
        },
        TABLE_SEARCH == 16,
        TABLE_IN_REACH == 8,
        MAX_LISTED == 100,
{
}

/// What can be made now is what is a crafting recipe, has its table or needs none, and misses
/// nothing; the first hundred of those are listed.
pub proof fn what_can_be_made_now_misses_nothing(
    recipes: Seq<Recipe>,
    known: Known,
    held: Map<Seq<char>, u64>,
    table: bool,
    n: int,
    at: int,
)
    requires
        0 <= n <= recipes.len(),
        0 <= at < n,
    ensures
        ({
            let listed = craftable_now(recipes, known, held, table, n);
            let fits = (recipes[at].display is Shaped || recipes[at].display is Shapeless) && (table
                || !recipes[at].display.wants_table()) && short_of(
                held,
                needed_of(recipes[at], known),
            ).len() == 0;
            &&& listed.len() <= 100
            &&& listed.contains(at) ==> fits
            &&& fits && listed.len() < 100 ==> listed.contains(at)
        }),
    decreases n,
{
    let before = craftable_now(recipes, known, held, table, n - 1);
    let all = craftable_now(recipes, known, held, table, n);
    if at < n - 1 {
        what_can_be_made_now_misses_nothing(recipes, known, held, table, n - 1, at);
        if before.contains(at) {
            let i = before.index_of(at);
            assert(all[i] == at);
        }
        if all.contains(at) {
            let i = all.index_of(at);
            if i < before.len() {
                assert(before[i] == at);
            }
        }
    } else {
        if n > 1 {
            what_can_be_made_now_misses_nothing(recipes, known, held, table, n - 1, 0);
        }
        listed_before(recipes, known, held, table, n - 1);
        if all.len() > before.len() {
            assert(all[before.len() as int] == at);
        }
    }
}

proof fn listed_before(
    recipes: Seq<Recipe>,
    known: Known,
    held: Map<Seq<char>, u64>,
    table: bool,
    n: int,
)
    ensures
        forall|i: int|
            0 <= i < craftable_now(recipes, known, held, table, n).len() ==> 0
                <= #[trigger] craftable_now(recipes, known, held, table, n)[i] < n,
    decreases n,
{
    if n > 0 {
        listed_before(recipes, known, held, table, n - 1);
        let before = craftable_now(recipes, known, held, table, n - 1);
        let all = craftable_now(recipes, known, held, table, n);
        assert forall|i: int| 0 <= i < all.len() implies 0 <= #[trigger] all[i] < n by {
            if i < before.len() {
                assert(all[i] == before[i]);
            }
        }
    }
}

/// How many of an item are carried: those of every stack of it in the bag and on the hotbar, and none
/// of what is worn or in the crafting grid.
pub proof fn what_is_carried_is_counted_stack_by_stack(
    slots: Seq<Option<Stack>>,
    name: Seq<char>,
    item: u32,
    n: int,
)
    requires
        0 <= n < slots.len(),
    ensures
        n < 9 ==> carried_count(slots, name, n + 1) == 0 && item_count(slots, item, n + 1) == 0,
        n >= 9 && slots[n] is None ==> carried_count(slots, name, n + 1) == carried_count(
            slots,
            name,
            n,
        ) && item_count(slots, item, n + 1) == item_count(slots, item, n),
        n >= 9 ==> (slots[n] matches Some(stack) ==> {
            &&& stack.name@ == name && stack.count > 0 ==> carried_count(slots, name, n + 1)
                == carried_count(slots, name, n) + stack.count
            &&& stack.name@ != name ==> carried_count(slots, name, n + 1) == carried_count(
                slots,
                name,
                n,
            )
            &&& stack.item == item ==> item_count(slots, item, n + 1) == item_count(slots, item, n)
                + stack.count
            &&& stack.item != item ==> item_count(slots, item, n + 1) == item_count(slots, item, n)
        }),
{
}

/// How much of a kind there is to serve is counted over every stack the game takes for a recipe.
pub proof fn only_plain_stacks_serve(slots: Seq<Option<Stack>>, n: int)
    requires
        0 <= n < slots.len(),
    ensures
        slots[n] is None ==> simple_of(slots, n + 1) == simple_of(slots, n),
        slots[n] matches Some(stack) ==> {
            &&& !stack.simple || stack.count <= 0 ==> simple_of(slots, n + 1) == simple_of(slots, n)
            &&& stack.simple && stack.count > 0 && !holds(simple_of(slots, n), stack.item)
                ==> simple_of(slots, n + 1) == simple_of(slots, n).push(
                (stack.item, stack.count as int),
            )
            &&& stack.simple && stack.count > 0 && holds(simple_of(slots, n), stack.item) ==> {
                let at = spot(simple_of(slots, n), stack.item);
                simple_of(slots, n + 1)[at] == (stack.item, simple_of(slots, n)[at].1 + stack.count)
            }
        },
{
}

/// How many a craft makes is what its result says of that item, and one where it says nothing.
pub proof fn a_craft_makes_what_its_result_says(stacks: Seq<(u32, i32)>, output: u32, at: int)
    requires
        0 <= at < stacks.len(),
    ensures
        stacks[at].0 == output ==> made_from(stacks, output, at) == stacks[at].1,
        stacks[at].0 != output ==> made_from(stacks, output, at) == made_from(
            stacks,
            output,
            at + 1,
        ),
        made_from(stacks, output, stacks.len() as int) == 1,
{
}

/// Each slot of a recipe asks for one of the item it shows first: one more of what is asked for
/// already, or something new.
pub proof fn each_slot_asks_for_one(slots: Seq<SlotDisplay>, known: Known, n: int)
    requires
        0 <= n < slots.len(),
    ensures
        needed_in(slots, known, 0).len() == 0,
        first_item_of(slots[n], known) is None ==> needed_in(slots, known, n + 1) == needed_in(
            slots,
            known,
            n,
        ),
        first_item_of(slots[n], known) matches Some((item, _)) ==> {
            let before = needed_in(slots, known, n);
            let after = needed_in(slots, known, n + 1);
            let name = path_of(known, item);
            &&& !holds(before, name) ==> after == before.push((name, 1int))
            &&& holds(before, name) ==> {
                let at = spot(before, name);
                &&& after.len() == before.len()
                &&& 0 <= at < before.len()
                &&& after[at] == (name, before[at].1 + 1)
                &&& forall|i: int| 0 <= i < before.len() && i != at ==> after[i] == before[i]
            }
        },
{
}

/// What a recipe is made of and makes are its own: the slots and the result of the two crafting kinds.
pub proof fn a_recipe_has_its_own_slots(display: RecipeDisplay)
    ensures
        display matches RecipeDisplay::Shaped { ingredients, result, .. } ==> display.slots()
            == ingredients@ && display.made() == result,
        display matches RecipeDisplay::Shapeless { ingredients, result } ==> display.slots()
            == ingredients@ && display.made() == result,
        display matches RecipeDisplay::Furnace { result } ==> display.made() == result
            && display.slots().len() == 0,
        display matches RecipeDisplay::Stonecutter { result } ==> display.made() == result,
        display matches RecipeDisplay::Smithing { result } ==> display.made() == result,
{
}

/// A result stands for the stacks it lists: one for an item, all of a tag's, and those of each part of
/// several.
pub proof fn a_result_stands_for_its_stacks(known: Known, item: u32, count: i32, contents: Vec<SlotDisplay>)
    ensures
        stacks_in(SlotDisplay::Item(item), known) == seq![(item, 1i32)],
        stacks_in(SlotDisplay::Stack(item, count), known) == seq![(item, count)],
        stacks_in(SlotDisplay::Other, known).len() == 0,
        stacks_in(SlotDisplay::Composite(contents), known) == stacks_among(
            contents@,
            known,
            contents@.len() as int,
        ),
        contents@.len() > 0 ==> stacks_among(contents@, known, contents@.len() as int) == stacks_among(
            contents@,
            known,
            contents@.len() - 1,
        ) + stacks_in(contents@.last(), known),
        known.path_of(item) matches Some(path) ==> path_of(known, item) == path,
        known.path_of(item) is None ==> path_of(known, item) == "air"@,
{
}

/// The nearest table is a table, and nothing nearer within the cube is.
pub proof fn the_nearest_table_is_a_table<F: Fn(BlockPos) -> bool>(
    is_table: F,
    feet: BlockPos,
    radius: int,
    at: BlockPos,
    x: int,
    y: int,
    z: int,
)
    requires
        nearest_of(is_table, feet, radius, Some(at)),
        0 <= radius <= 26754,
        i32::MIN + radius <= feet.x <= i32::MAX - radius,
        i32::MIN + radius <= feet.y <= i32::MAX - radius,
        i32::MIN + radius <= feet.z <= i32::MAX - radius,
        -radius <= x <= radius,
        -radius <= y <= radius,
        -radius <= z <= radius,
        x * x + y * y + z * z < (at.x - feet.x) * (at.x - feet.x) + (at.y - feet.y) * (at.y - feet.y) + (
        at.z - feet.z) * (at.z - feet.z),
    ensures
        call_ensures(is_table, (at,), true),
        -radius <= at.x - feet.x <= radius,
        -radius <= at.y - feet.y <= radius,
        -radius <= at.z - feet.z <= radius,
        call_ensures(
            is_table,
            (BlockPos { x: (feet.x + x) as i32, y: (feet.y + y) as i32, z: (feet.z + z) as i32 },),
            false,
        ),
{
    let (a, b, c) = choose|a: int, b: int, c: int|
        {
            &&& in_cube((a, b, c), radius)
            &&& at == #[trigger] shifted(feet, a, b, c)
            &&& call_ensures(is_table, (at,), true)
            &&& none_nearer(is_table, feet, radius, (radius + 1, 0, 0), Some((a, b, c)))
        };
    assert(at.x - feet.x == a && at.y - feet.y == b && at.z - feet.z == c);
    assert(nearer((x, y, z), (a, b, c)));
    assert(ahead((x, y, z), (radius + 1, 0, 0)));
    assert(shifted(feet, x, y, z) == BlockPos {
        x: (feet.x + x) as i32,
        y: (feet.y + y) as i32,
        z: (feet.z + z) as i32,
    });
}

/// What is said where no result appeared: how many were made before, where any were.
pub proof fn what_was_made_before_is_told(name: Seq<char>, made: int, per_craft: int)
    requires
        0 < made < 0x8000_0000,
    ensures
        nothing_appeared(name, 0, per_craft).message == "The server placed "@ + name
            + "'s recipe but no result appeared."@ + ""@,
        nothing_appeared(name, made, per_craft).message == "The server placed "@ + name
            + "'s recipe but no result appeared."@ + (" "@ + dec(made * per_craft)
            + " were made before that."@),
        nothing_appeared(name, made, per_craft).code == "NOTHING_CRAFTED"@,
        PATIENCE_TICKS == 40,
        RESULT_SLOT == 0,
{
}

/// A tag stands for one of each of its members that is an item.
pub proof fn a_tag_stands_for_its_members(known: Known, members: Seq<i32>, n: int)
    requires
        0 <= n < members.len(),
    ensures
        tagged(known, members, 0).len() == 0,
        known.item_of(members[n]) matches Some(item) ==> tagged(known, members, n + 1) == tagged(
            known,
            members,
            n,
        ).push((item, 1i32)),
        known.item_of(members[n]) is None ==> tagged(known, members, n + 1) == tagged(
            known,
            members,
            n,
        ),
{
}

} // verus!
