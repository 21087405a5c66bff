//! What the bot carries: listed, found, equipped and given.
use vstd::prelude::*;

use crate::calls::{Answer, AnswerView, Failure, FailureView};
use crate::json::{docs, Doc, Json, Number};
use crate::tools::args::{given, integer, integer_of};
use crate::tools::stacks::{answers, carried, carried_of, Stack};
use crate::tools::windows::OFF_HAND;
use crate::words::{
    after, cat2, cat3, cat5, cat7, dec, decimal, letters, lowercase, lowercase_of, same, signed,
    spell, trim, trimmed, wrapped_u64,
};

verus! {

/// The player's inventory window, as the server numbers it: 5-8 worn, 9-35 the bag, 36-44 the
/// hotbar, 45 the off-hand.
pub const WORN_HEAD: usize = 5;

pub const BAG_START: usize = 9;

pub const HOTBAR_START: usize = 36;

pub const HOTBAR_END: usize = 44;

/// The window id of the player's own inventory, which the server uses when nothing else is open.
pub const INVENTORY_WINDOW: i32 = 0;

/// Where in an open container a slot of the player's own window is shown: the bag and the hotbar,
/// behind the container's own slots.
pub open spec fn shown_at(slot: int, from: int) -> Option<int> {
    if BAG_START <= slot <= HOTBAR_END {
        Some(from + slot - BAG_START)
    } else {
        None
    }
}

pub fn shown_in(slot: usize, from: usize) -> (r: Option<usize>)
    requires
        from + HOTBAR_END <= usize::MAX,
    ensures
        match r {
            Some(at) => shown_at(slot as int, from as int) == Some(at as int),
            None => shown_at(slot as int, from as int) is None,
        },
{
    if slot >= BAG_START && slot <= HOTBAR_END {
        Some(from + (slot - BAG_START))
    } else {
        None
    }
}

/// What a slot of the player's inventory window holds, numbered the way click-slot numbers it.
///
/// The game keeps a second copy of the carried slots inside an open container and copies it back
/// only when the container closes, so while one is open the inventory window's own copy is the one
/// from before it opened. The container's is the current one.
pub open spec fn player_slot<T>(own: Seq<T>, shown: Seq<T>, slot: int) -> T {
    if BAG_START <= slot <= HOTBAR_END && slot - BAG_START < shown.len() {
        shown[slot - BAG_START]
    } else {
        own[slot]
    }
}

/// The player's inventory window, with the slots an open container shows behind its own taken from
/// it. With none open, it shows none.
pub fn player_menu(own: Vec<Option<Stack>>, shown: Vec<Option<Stack>>) -> (r: Vec<Option<Stack>>)
    ensures
        r@ == Seq::new(own@.len(), |i: int| player_slot(own@, shown@, i)),
{
    let ghost (mine, theirs) = (own@, shown@);
    let mut own = own;
    let mut shown = shown;
    let mut out: Vec<Option<Stack>> = Vec::new();
    let ghost mut done: int = 0;
    let count: usize = own.len();
    let mut i: usize = 0;
    proof {
        assert(mine.skip(0) =~= mine);
        assert(theirs.skip(0) =~= theirs);
    }
    while i < count
        invariant
            i <= count == mine.len(),
            0 <= done <= theirs.len(),
            done == if i <= BAG_START {
                0
            } else if i > HOTBAR_END {
                if theirs.len() < 36 {
                    theirs.len() as int
                } else {
                    36
                }
            } else if i - BAG_START < theirs.len() {
                i - BAG_START
            } else {
                theirs.len() as int
            },
            own@ == mine.skip(i as int),
            shown@ == theirs.skip(done),
            out@.len() == i,
            forall|k: int| 0 <= k < i ==> (#[trigger] out@[k]) == player_slot(mine, theirs, k),
        decreases count - i,
    {
        proof {
            assert(mine.skip(i as int).remove(0) =~= mine.skip(i + 1));
            assert(mine.skip(i as int)[0] == mine[i as int]);
        }
        let slot = own.remove(0);
        if i >= BAG_START && i <= HOTBAR_END && shown.len() > 0 {
            proof {
                assert(theirs.skip(done)[0] == theirs[done]);
                assert(theirs.skip(done).remove(0) =~= theirs.skip(done + 1));
                done = done + 1;
            }
            out.push(shown.remove(0));
        } else {
            out.push(slot);
        }
        i += 1;
    }
    proof {
        assert(out@ =~= Seq::new(mine.len(), |i: int| player_slot(mine, theirs, i)));
    }
    out
}

/// The stacks that are there, each with its slot, of the first `n` slots.
pub open spec fn carried_docs(slots: Seq<Option<Stack>>, n: int) -> Seq<Doc>
    decreases n,
{
    if n <= 0 {
        Seq::empty()
    } else {
        match slots[n - 1] {
            Some(stack) => carried_docs(slots, n - 1).push(carried_of(stack, n - 1)),
            None => carried_docs(slots, n - 1),
        }
    }
}

/// What list-inventory answers.
pub fn list_inventory(slots: &Vec<Option<Stack>>) -> (r: Answer)
    ensures
        r@ == AnswerView::full(
            "list-inventory"@,
            Doc::object().with(
                "items"@,
                Doc::list(carried_docs(slots@, slots@.len() as int)),
            ),
        ),
{
    let mut items: Vec<Json> = Vec::new();
    let mut i: usize = 0;
    proof {
        assert(docs(items@) =~= Seq::<Doc>::empty());
    }
    while i < slots.len()
        invariant
            i <= slots@.len(),
            docs(items@) == carried_docs(slots@, i as int),
        decreases slots@.len() - i,
    {
        if let Some(stack) = &slots[i] {
            let ghost before = items@;
            items.push(carried(stack, i));
            proof {
                assert(docs(items@) =~= docs(before).push(carried_of(*stack, i as int)));
            }
        }
        i += 1;
    }
    Answer::data(
        "list-inventory".to_owned(),
        Json::object().with("items", Json::list(items)),
    )
}

/// Whether a slot holds something that answers to a name.
pub open spec fn answers_at(slots: Seq<Option<Stack>>, query: Seq<char>, at: int) -> bool {
    match slots[at] {
        Some(stack) => answers(stack, query),
        None => false,
    }
}

/// The first slot from a place on that holds something that answers to a name.
pub open spec fn first_match(slots: Seq<Option<Stack>>, query: Seq<char>, from: int) -> Option<int>
    decreases slots.len() - from,
{
    if from < 0 || from >= slots.len() {
        None
    } else if answers_at(slots, query, from) {
        Some(from)
    } else {
        first_match(slots, query, from + 1)
    }
}

fn find(slots: &Vec<Option<Stack>>, query: &str, from: usize) -> (r: Option<usize>)
    ensures
        match r {
            Some(at) => first_match(slots@, query@, from as int) == Some(at as int) && at
                < slots@.len() && slots@[at as int] is Some && from <= at,
            None => first_match(slots@, query@, from as int) is None,
        },
{
    let mut i: usize = from;
    while i < slots.len()
        invariant
            from <= i,
            i <= slots@.len() || i == from,
            first_match(slots@, query@, from as int) == first_match(slots@, query@, i as int),
        decreases slots@.len() - i,
    {
        if let Some(stack) = &slots[i] {
            if crate::tools::stacks::matches(stack, query) {
                return Some(i);
            }
        }
        i += 1;
    }
    None
}

/// What find-item answers. Not found is a state, not a failure: a check often wants to know a thing
/// is absent.
pub fn find_item(slots: &Vec<Option<Stack>>, query: &str) -> (r: Answer)
    ensures
        r@ == AnswerView::full(
            "find-item"@,
            Doc::object().with("query"@, Doc::Text(query@)).with(
                "item"@,
                match first_match(slots@, query@, 0) {
                    Some(at) => carried_of(slots@[at]->0, at),
                    None => Doc::Null,
                },
            ),
        ),
{
    let item = match find(slots, query, 0) {
        Some(at) => match &slots[at] {
            Some(stack) => carried(stack, at),
            None => Json::Null,
        },
        None => Json::Null,
    };
    Answer::data(
        "find-item".to_owned(),
        Json::object().with("query", Json::text(query)).with("item", item),
    )
}

/// What is done to equip an item.
#[allow(inconsistent_fields)]
#[derive(Clone, Copy, Debug, PartialEq, Eq, Structural)]
pub enum Equip {
    /// Hold a slot of the hotbar, by its place there.
    Hold(u8),
    /// Swap a slot of the inventory window with another by its button.
    Swap { source: usize, button: u8 },
    /// Pick the item up and put it on.
    Wear { source: usize, worn: usize },
}

/// Where a part of the body is worn in the inventory window.
pub open spec fn worn_at(destination: Seq<char>) -> Option<int> {
    if destination == "head"@ {
        Some(5)
    } else if destination == "torso"@ {
        Some(6)
    } else if destination == "legs"@ {
        Some(7)
    } else if destination == "feet"@ {
        Some(8)
    } else {
        None
    }
}

/// How what lies in a slot is equipped, or what is said instead. Already on the hotbar is a held-item
/// change, which is what a person does with a number key.
pub open spec fn equip_of(source: int, selected: u8, destination: Seq<char>) -> Result<
    Equip,
    FailureView,
> {
    if destination == "hand"@ {
        if HOTBAR_START <= source <= HOTBAR_END {
            Ok(Equip::Hold((source - HOTBAR_START) as u8))
        } else {
            Ok(Equip::Swap { source: source as usize, button: selected })
        }
    } else if destination == "off-hand"@ {
        Ok(Equip::Swap { source: source as usize, button: OFF_HAND })
    } else {
        match worn_at(destination) {
            Some(worn) => Ok(Equip::Wear { source: source as usize, worn: worn as usize }),
            None => Err(FailureView::misuse("unknown destination "@ + destination)),
        }
    }
}

fn equip_to(source: usize, selected: u8, destination: &str) -> (r: Result<Equip, Failure>)
    ensures
        match r {
            Ok(equip) => equip_of(source as int, selected, destination@) == Ok::<
                Equip,
                FailureView,
            >(equip),
            Err(failure) => equip_of(source as int, selected, destination@) == Err::<
                Equip,
                FailureView,
            >(failure@),
        },
{
    if same(destination, "hand") {
        if source >= HOTBAR_START && source <= HOTBAR_END {
            return Ok(Equip::Hold((source - HOTBAR_START) as u8));
        }
        return Ok(Equip::Swap { source, button: selected });
    }
    if same(destination, "off-hand") {
        return Ok(Equip::Swap { source, button: OFF_HAND });
    }
    let worn: usize = if same(destination, "head") {
        5
    } else if same(destination, "torso") {
        6
    } else if same(destination, "legs") {
        7
    } else if same(destination, "feet") {
        8
    } else {
        return Err(Failure::bad_args(cat2("unknown destination ", destination)));
    };
    Ok(Equip::Wear { source, worn })
}

/// What equip-item does and answers: put an item where it can be used, in hand, in the off-hand, or
/// worn.
///
/// All of it is clicks in the player's inventory window, the same a person makes, so the server
/// moves the item and nothing here writes the inventory behind its back.
pub fn equip_item(slots: &Vec<Option<Stack>>, selected: u8, query: &str, destination: &str) -> (r:
    Result<(Equip, Answer), Failure>)
    ensures
        match first_match(slots@, query@, BAG_START as int) {
            None => r matches Err(failure) && failure@ == FailureView::refusal(
                "NO_SUCH_ITEM"@,
                "No inventory item matches \""@ + query@ + "\""@,
            ),
            Some(source) => match equip_of(source, selected, destination@) {
                Err(failure) => r matches Err(refused) && refused@ == failure,
                Ok(equip) => r matches Ok((done, answer)) && done == equip && answer@
                    == AnswerView::plain(
                    "Equipped "@ + slots@[source]->0.name@ + " to "@ + destination@ + "."@,
                ),
            },
        },
{
    match find(slots, query, BAG_START) {
        None => Err(
            Failure::refused("NO_SUCH_ITEM", cat3("No inventory item matches \"", query, "\"")),
        ),
        Some(source) => match equip_to(source, selected, destination) {
            Err(failure) => Err(failure),
            Ok(equip) => {
                let name: &str = match &slots[source] {
                    Some(stack) => stack.name.as_str(),
                    None => "",
                };
                Ok((equip, Answer::text(cat5("Equipped ", name, " to ", destination, "."))))
            },
        },
    }
}

/// The clicks that put an item on: pick it up, put it on. What is on already is left alone.
///
/// Armour is two picks rather than a shift-click, because a shift-click sends whatever is not armour
/// somewhere else entirely and still looks like it worked.
pub fn wear(source: usize, worn: usize) -> (r: Vec<usize>)
    ensures
        r@ == if source == worn {
            Seq::empty()
        } else {
            seq![source, worn]
        },
{
    let mut out: Vec<usize> = Vec::new();
    if source != worn {
        out.push(source);
        out.push(worn);
        proof {
            assert(out@ =~= seq![source, worn]);
        }
    }
    out
}

/// The click behind those, where something came off: it goes back where the first one was. A stack
/// left on the cursor drops the moment anything else opens a window.
pub fn put_back(source: usize, worn: usize, carrying: bool) -> (r: Option<usize>)
    ensures
        r == if source != worn && carrying {
            Some(source)
        } else {
            None
        },
{
    if source != worn && carrying {
        Some(source)
    } else {
        None
    }
}

/// The clicks by which things lie in slots and under the cursor: a pick swaps the two where they
/// are not of a kind.
pub open spec fn picked_up<T>(slots: Seq<T>, cursor: T, at: int) -> (Seq<T>, T) {
    (slots.update(at, cursor), slots[at])
}

/// The two picks and the third, where something came off, leave the item worn, what was worn before in
/// its place, and nothing else moved or under the cursor that was not there.
pub proof fn wearing_swaps<T>(slots: Seq<T>, empty: T, source: int, worn: int)
    requires
        0 <= source < slots.len(),
        0 <= worn < slots.len(),
        source != worn,
    ensures
        ({
            let first = picked_up(slots, empty, source);
            let second = picked_up(first.0, first.1, worn);
            let third = picked_up(second.0, second.1, source);
            &&& third.0 == slots.update(worn, slots[source]).update(source, slots[worn])
            &&& third.1 == empty
            &&& slots[worn] == empty ==> second.0 == third.0 && second.1 == empty
        }),
{
    let first = picked_up(slots, empty, source);
    let second = picked_up(first.0, first.1, worn);
    let third = picked_up(second.0, second.1, source);
    assert(third.0 =~= slots.update(worn, slots[source]).update(source, slots[worn]));
    if slots[worn] == empty {
        assert(second.0 =~= third.0);
    }
}

/// The first of some characters that is a colon, from a place on.
pub open spec fn colon_from(s: Seq<char>, from: int) -> Option<int>
    decreases s.len() - from,
{
    if from < 0 || from >= s.len() {
        None
    } else if s[from] == ':' {
        Some(from)
    } else {
        colon_from(s, from + 1)
    }
}

fn find_colon(s: &Vec<char>) -> (r: Option<usize>)
    ensures
        match r {
            Some(at) => colon_from(s@, 0) == Some(at as int) && at < s@.len(),
            None => colon_from(s@, 0) is None,
        },
{
    let mut i: usize = 0;
    while i < s.len()
        invariant
            i <= s@.len(),
            colon_from(s@, 0) == colon_from(s@, i as int),
        decreases s@.len() - i,
    {
        if s[i] == ':' {
            return Some(i);
        }
        i += 1;
    }
    None
}

/// The path of a name in the game's own namespace, where it is in it. A name without a namespace is.
pub open spec fn path_in(id: Seq<char>) -> Option<Seq<char>> {
    match colon_from(id, 0) {
        Some(at) => if id.take(at) == "minecraft"@ {
            Some(id.skip(at + 1))
        } else {
            None
        },
        None => Some(id),
    }
}

/// The path of an identifier, as the game reads one: the namespace may be left out, its colon too.
pub open spec fn identifier_path(id: Seq<char>) -> Option<Seq<char>> {
    if colon_from(id, 0) == Some(0int) {
        Some(id.skip(1))
    } else {
        path_in(id)
    }
}

fn path_within(id: &str) -> (r: Option<String>)
    ensures
        match r {
            Some(path) => path_in(id@) == Some(path@),
            None => path_in(id@) is None,
        },
{
    let all = letters(id);
    match find_colon(&all) {
        Some(at) => {
            let end: usize = all.len();
            let space = spell(&all, 0, at);
            proof {
                assert(all@.subrange(0, at as int) =~= id@.take(at as int));
                assert(all@.subrange(at + 1, all@.len() as int) =~= id@.skip(at + 1));
            }
            if same(space.as_str(), "minecraft") {
                Some(spell(&all, at + 1, all.len()))
            } else {
                None
            }
        },
        None => Some(id.to_owned()),
    }
}

/// The first place of a path in the registry.
pub open spec fn registered(items: Seq<String>, path: Seq<char>, from: int) -> Option<int>
    decreases items.len() - from,
{
    if from < 0 || from >= items.len() {
        None
    } else if items[from]@ == path {
        Some(from)
    } else {
        registered(items, path, from + 1)
    }
}

/// The entry of a registry that an identifier names, by its place there.
pub open spec fn entry_named(entries: Seq<String>, id: Seq<char>) -> Option<int> {
    match identifier_path(id) {
        Some(path) => registered(entries, path, 0),
        None => None,
    }
}

/// An entry of a registry by its identifier, with or without the namespace. `entries` are the
/// registry's paths, by their numbers.
pub fn entry(entries: &Vec<String>, id: &str) -> (r: Option<usize>)
    ensures
        match r {
            Some(at) => entry_named(entries@, id@) == Some(at as int) && at < entries@.len(),
            None => entry_named(entries@, id@) is None,
        },
{
    let all = letters(id);
    let path: String = if all.len() > 0 && all[0] == ':' {
        after(id, 1)
    } else {
        match path_within(id) {
            Some(path) => path,
            None => {
                proof {
                    colon_first(id@);
                }
                return None;
            },
        }
    };
    proof {
        colon_first(id@);
        assert(identifier_path(id@) == Some(path@));
    }
    let mut i: usize = 0;
    while i < entries.len()
        invariant
            i <= entries@.len(),
            identifier_path(id@) == Some(path@),
            registered(entries@, path@, 0) == registered(entries@, path@, i as int),
        decreases entries@.len() - i,
    {
        if same(entries[i].as_str(), path.as_str()) {
            return Some(i);
        }
        i += 1;
    }
    None
}

/// The item that a caller wrote the name of.
pub open spec fn item_of(items: Seq<String>, name: Seq<char>) -> Option<int> {
    match path_in(lowercase_of(trimmed(name))) {
        Some(path) => entry_named(items, path),
        None => None,
    }
}

/// An item by the name a caller wrote, with or without the namespace. Another namespace is not an
/// item this version has. `items` are the registry paths of the items, by their numbers.
pub fn item(items: &Vec<String>, name: &str) -> (r: Option<usize>)
    ensures
        match r {
            Some(at) => item_of(items@, name@) == Some(at as int) && at < items@.len(),
            None => item_of(items@, name@) is None,
        },
{
    let id = lowercase(trim(name).as_str());
    match path_within(id.as_str()) {
        Some(path) => entry(items, path.as_str()),
        None => None,
    }
}

proof fn colon_first(s: Seq<char>)
    ensures
        (colon_from(s, 0) == Some(0int)) == (s.len() > 0 && s[0] == ':'),
{
    colon_behind(s, 1);
}

proof fn colon_behind(s: Seq<char>, from: int)
    ensures
        colon_from(s, from) matches Some(at) ==> at >= from,
    decreases s.len() - from,
{
    if 0 <= from < s.len() {
        colon_behind(s, from + 1);
    }
}

/// A slot where a first empty one is looked for: the hotbar first, the bag after.
pub open spec fn filling_order(i: int) -> int {
    if i < 9 {
        HOTBAR_START + i
    } else {
        i
    }
}

/// The first empty slot from a place of the order on.
pub open spec fn empty_from(slots: Seq<Option<Stack>>, i: int) -> Option<int>
    decreases 36 - i,
{
    if i >= 36 {
        None
    } else if filling_order(i) < slots.len() && slots[filling_order(i)] is None {
        Some(filling_order(i))
    } else {
        empty_from(slots, i + 1)
    }
}

/// The hotbar first, the bag after: the other kind of bot fills the same slot for the same call.
pub fn first_empty(slots: &Vec<Option<Stack>>) -> (r: Result<usize, Failure>)
    ensures
        match r {
            Ok(at) => empty_from(slots@, 0) == Some(at as int),
            Err(failure) => empty_from(slots@, 0) is None && failure@ == FailureView::refusal(
                "INVENTORY_FULL"@,
                "The inventory is full and no slot was given."@,
            ),
        },
{
    let mut i: usize = 0;
    while i < 36
        invariant
            i <= 36,
            empty_from(slots@, 0) == empty_from(slots@, i as int),
        decreases 36 - i,
    {
        let at: usize = if i < 9 {
            HOTBAR_START + i
        } else {
            i
        };
        if at < slots.len() && slots[at].is_none() {
            return Ok(at);
        }
        i += 1;
    }
    Err(
        Failure::refused(
            "INVENTORY_FULL",
            "The inventory is full and no slot was given.".to_owned(),
        ),
    )
}

/// The slot that is filled is empty, and is the hotbar's where it has one that is.
pub proof fn the_hotbar_is_filled_first(slots: Seq<Option<Stack>>, slot: int)
    requires
        slots.len() == 46,
        HOTBAR_START <= slot <= HOTBAR_END,
        slots[slot] is None,
    ensures
        empty_from(slots, 0) matches Some(at) && HOTBAR_START <= at <= slot && slots[at] is None,
{
    filled_from(slots, slot, 0);
}

proof fn filled_from(slots: Seq<Option<Stack>>, slot: int, i: int)
    requires
        slots.len() == 46,
        0 <= i <= slot - HOTBAR_START < 9,
        slots[slot] is None,
    ensures
        empty_from(slots, i) matches Some(at) && HOTBAR_START <= at <= slot && slots[at] is None,
    decreases 9 - i,
{
    if i < slot - HOTBAR_START {
        filled_from(slots, slot, i + 1);
    }
}

/// What give-item puts and where, or what is said instead.
pub open spec fn giving_of(
    args: Doc,
    creative: bool,
    mode: Seq<char>,
    items: Seq<String>,
    name: Seq<char>,
    slots: Seq<Option<Stack>>,
) -> Result<(int, int), FailureView> {
    if !creative {
        Err(
            FailureView::refusal(
                "NOT_CREATIVE"@,
                "The bot is in "@ + mode + " mode; give-item needs creative."@,
            ),
        )
    } else {
        match item_of(items, name) {
            None => Err(
                FailureView::refusal(
                    "NO_SUCH_ITEM"@,
                    "\""@ + name + "\" is not an item in this version."@,
                ),
            ),
            Some(kind) => match given(args, "slot"@) {
                Doc::Null => match empty_from(slots, 0) {
                    Some(slot) => Ok((kind, slot)),
                    None => Err(
                        FailureView::refusal(
                            "INVENTORY_FULL"@,
                            "The inventory is full and no slot was given."@,
                        ),
                    ),
                },
                _ => match integer_of(args, "slot"@, (-1) as i64) {
                    Ok(slot) => Ok((kind, slot as int % 0x1_0000_0000_0000_0000)),
                    Err(failure) => Err(failure),
                },
            },
        }
    }
}

/// What give-item puts and where: an item straight into the inventory, so a check starts from the
/// state it needs rather than gathering its way there.
///
/// Creative only, because the packet behind it is the creative inventory's and a server in any other
/// mode drops it. Saying so is better than a silent no-op.
pub fn giving(
    args: &Json,
    creative: bool,
    mode: &str,
    items: &Vec<String>,
    name: &str,
    slots: &Vec<Option<Stack>>,
) -> (r: Result<(usize, u64), Failure>)
    ensures
        match r {
            Ok((kind, slot)) => giving_of(args@, creative, mode@, items@, name@, slots@) == Ok::<
                (int, int),
                FailureView,
            >((kind as int, slot as int)),
            Err(failure) => giving_of(args@, creative, mode@, items@, name@, slots@) == Err::<
                (int, int),
                FailureView,
            >(failure@),
        },
{
    if !creative {
        return Err(
            Failure::refused(
                "NOT_CREATIVE",
                cat3("The bot is in ", mode, " mode; give-item needs creative."),
            ),
        );
    }
    let kind: usize = match item(items, name) {
        Some(kind) => kind,
        None => {
            return Err(
                Failure::refused(
                    "NO_SUCH_ITEM",
                    cat3("\"", name, "\" is not an item in this version."),
                ),
            );
        },
    };
    let absent: bool = match args.get("slot") {
        None => true,
        Some(Json::Null) => true,
        Some(_) => false,
    };
    if absent {
        match first_empty(slots) {
            Ok(slot) => Ok((kind, slot as u64)),
            Err(failure) => Err(failure),
        }
    } else {
        match integer(args, "slot", -1) {
            Ok(slot) => Ok((kind, wrapped_u64(slot))),
            Err(failure) => Err(failure),
        }
    }
}

/// What give-item answers.
pub fn given_item(count: i64, name: &str, slot: u64) -> (r: Answer)
    ensures
        r@ == AnswerView::plain(
            "Put "@ + dec(count as int) + " "@ + name@ + " in slot "@ + dec(slot as int) + "."@,
        ),
{
    Answer::text(
        cat7(
            "Put ",
            signed(count).as_str(),
            " ",
            name,
            " in slot ",
            decimal(slot).as_str(),
            ".",
        ),
    )
}

/// Where an item goes by its destination: in hand by the key of its place on the hotbar or by a swap
/// with what is held, in the off-hand by a swap with that, and worn on the part of the body.
pub proof fn each_destination_has_its_own_place(source: int, selected: u8)
    requires
        0 <= source < 46,
    ensures
        36 <= source <= 44 ==> equip_of(source, selected, "hand"@) == Ok::<Equip, FailureView>(
            Equip::Hold((source - 36) as u8),
        ),
        source < 36 ==> equip_of(source, selected, "hand"@) == Ok::<Equip, FailureView>(
            Equip::Swap { source: source as usize, button: selected },
        ),
        equip_of(source, selected, "off-hand"@) == Ok::<Equip, FailureView>(
            Equip::Swap { source: source as usize, button: 40 },
        ),
        equip_of(source, selected, "head"@) == Ok::<Equip, FailureView>(
            Equip::Wear { source: source as usize, worn: 5 },
        ),
        equip_of(source, selected, "torso"@) == Ok::<Equip, FailureView>(
            Equip::Wear { source: source as usize, worn: 6 },
        ),
        equip_of(source, selected, "legs"@) == Ok::<Equip, FailureView>(
            Equip::Wear { source: source as usize, worn: 7 },
        ),
        equip_of(source, selected, "feet"@) == Ok::<Equip, FailureView>(
            Equip::Wear { source: source as usize, worn: 8 },
        ),
        BAG_START == 9 && HOTBAR_START == 36 && HOTBAR_END == 44,
{
    reveal_strlit("hand");
    reveal_strlit("off-hand");
    reveal_strlit("head");
    reveal_strlit("torso");
    reveal_strlit("legs");
    reveal_strlit("feet");
    assert("hand"@.len() == 4);
    assert("off-hand"@.len() == 8);
    assert("head"@.len() == 4);
    assert("torso"@.len() == 5);
    assert("legs"@.len() == 4);
    assert("feet"@.len() == 4);
    assert("hand"@[1] != "head"@[1]);
    assert("hand"@[0] != "legs"@[0]);
    assert("hand"@[0] != "feet"@[0]);
    assert("head"@[0] != "legs"@[0]);
    assert("head"@[0] != "feet"@[0]);
    assert("legs"@[0] != "feet"@[0]);
}

/// While a container is open the bag and the hotbar are what it shows of them, and the rest is the
/// inventory's own.
pub proof fn the_container_shows_the_current_bag<T>(own: Seq<T>, shown: Seq<T>, slot: int, from: int)
    ensures
        9 <= slot <= 44 && slot - 9 < shown.len() ==> player_slot(own, shown, slot) == shown[slot - 9],
        slot < 9 || slot > 44 ==> player_slot(own, shown, slot) == own[slot],
        shown.len() == 0 ==> player_slot(own, shown, slot) == own[slot],
        9 <= slot <= 44 ==> shown_at(slot, from) == Some(from + slot - 9),
        slot < 9 || slot > 44 ==> shown_at(slot, from) is None,
{
}

/// Every slot that holds something is told with its number, and no empty one.
pub proof fn every_carried_stack_is_told(slots: Seq<Option<Stack>>, n: int)
    requires
        0 <= n < slots.len(),
    ensures
        carried_docs(slots, 0).len() == 0,
        slots[n] is None ==> carried_docs(slots, n + 1) == carried_docs(slots, n),
        slots[n] matches Some(stack) ==> carried_docs(slots, n + 1) == carried_docs(slots, n).push(
            carried_of(stack, n),
        ),
{
}

/// The first slot that answers to a query does, and none before it.
pub proof fn the_first_that_answers_is_found(slots: Seq<Option<Stack>>, query: Seq<char>, from: int, other: int)
    requires
        0 <= from <= other < slots.len(),
    ensures
        match first_match(slots, query, from) {
            Some(at) => {
                &&& from <= at < slots.len()
                &&& slots[at] matches Some(stack) && answers(stack, query)
                &&& other < at ==> !(slots[other] matches Some(stack) && answers(stack, query))
            },
            None => !(slots[other] matches Some(stack) && answers(stack, query)),
        },
    decreases slots.len() - from,
{
    if !answers_at(slots, query, from) {
        if from < other {
            the_first_that_answers_is_found(slots, query, from + 1, other);
        } else if from + 1 < slots.len() {
            the_first_that_answers_is_found(slots, query, from + 1, from + 1);
        }
    }
}

proof fn registered_by_name(items: Seq<String>, path: Seq<char>, from: int)
    requires
        0 <= from,
    ensures
        match registered(items, path, from) {
            Some(i) => from <= i < items.len() && items[i]@ == path,
            None => forall|i: int| from <= i < items.len() ==> (#[trigger] items[i])@ != path,
        },
    decreases items.len() - from,
{
    if from < items.len() {
        registered_by_name(items, path, from + 1);
    }
}

/// An item is known by its path, in the game's own namespace or in none, and in no other.
pub proof fn an_item_goes_by_its_path(items: Seq<String>, name: Seq<char>)
    ensures
        ({
            let id = lowercase_of(trimmed(name));
            &&& colon_from(id, 0) matches Some(at) ==> (id.take(at) != "minecraft"@ ==> item_of(
                items,
                name,
            ) is None)
            &&& colon_from(id, 0) is None ==> (item_of(items, name) matches Some(i) ==> 0 <= i
                < items.len() && items[i]@ == id)
            &&& colon_from(id, 0) is None && item_of(items, name) is None ==> forall|i: int|
                0 <= i < items.len() ==> (#[trigger] items[i])@ != id
        }),
{
    let id = lowercase_of(trimmed(name));
    registered_by_name(items, id, 0);
}

/// What is given is the item that was named, in the slot that was asked for or the first that is
/// empty, and only in creative.
pub proof fn what_is_given_is_what_was_named(
    args: Doc,
    creative: bool,
    mode: Seq<char>,
    items: Seq<String>,
    name: Seq<char>,
    slots: Seq<Option<Stack>>,
    n: i64,
)
    ensures
        ({
            let given = giving_of(args, creative, mode, items, name, slots);
            &&& !creative ==> (given matches Err(failure) && failure.code == "NOT_CREATIVE"@)
            &&& creative && item_of(items, name) is None ==> (given matches Err(failure)
                && failure.code == "NO_SUCH_ITEM"@)
            &&& creative && args.at("slot"@) is None ==> (item_of(items, name) matches Some(kind)
                ==> match empty_from(slots, 0) {
                Some(slot) => given == Ok::<(int, int), FailureView>((kind, slot)),
                None => given matches Err(failure) && failure.code == "INVENTORY_FULL"@,
            })
            &&& creative && args.at("slot"@) == Some(Doc::Number(Number::Whole(n))) && n >= 0 ==> (
            item_of(items, name) matches Some(kind) ==> given == Ok::<(int, int), FailureView>(
                (kind, n as int),
            ))
        }),
{
}

/// The slot that is filled is empty, and one of the hotbar or the bag.
pub proof fn what_is_filled_was_empty(slots: Seq<Option<Stack>>, i: int)
    requires
        0 <= i,
    ensures
        empty_from(slots, i) matches Some(slot) ==> 9 <= slot <= 44 && slot < slots.len()
            && slots[slot] is None,
        0 <= i < 9 ==> filling_order(i) == 36 + i,
        9 <= i < 36 ==> filling_order(i) == i,
    decreases 36 - i,
{
    if i < 36 {
        what_is_filled_was_empty(slots, i + 1);
    }
}

} // verus!
