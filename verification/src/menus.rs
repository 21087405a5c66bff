//! What a vanilla client keeps about the menus it draws: a trading screen's offers, the numbers an
//! enchanting table, a beacon or a lectern pushes into its menu, the stonecutter's recipe list, the
//! recipe book, an open book, and the tags and registry entries those are named from.
use vstd::prelude::*;

use crate::table::Table;
use crate::tools::book::Hand;
use crate::tools::stacks::Stack;
use crate::words::same;

verus! {

/// The registries whose entries are read by name: what an enchantment is called and how high it
/// goes, and what a banner pattern is called. The rest are not kept.
pub open spec fn is_kept_registry(name: Seq<char>) -> bool {
    name == "minecraft:enchantment"@ || name == "minecraft:banner_pattern"@
}

/// What a slot of a recipe or a button is drawn from.
pub enum SlotDisplay {
    /// An item, by its number.
    Item(u32),
    Stack(u32, i32),
    /// Any item of a tag.
    Tag(String),
    WithRemainder(Box<SlotDisplay>),
    Composite(Vec<SlotDisplay>),
    /// A display with nothing to show, or one that needs the world to work out.
    Other,
}

/// The items an ingredient takes: those listed, or those of a tag.
pub enum Allowed {
    Direct(Vec<u32>),
    Named(String),
}

/// A recipe of the stonecutter.
pub struct Cutting {
    pub input: Allowed,
    pub display: SlotDisplay,
}

/// How a recipe is drawn.
pub enum RecipeDisplay {
    Shaped { width: u32, height: u32, ingredients: Vec<SlotDisplay>, result: SlotDisplay },
    Shapeless { ingredients: Vec<SlotDisplay>, result: SlotDisplay },
    Furnace { result: SlotDisplay },
    Stonecutter { result: SlotDisplay },
    Smithing { result: SlotDisplay },
}

/// A recipe of the book.
pub struct Recipe {
    pub id: u32,
    pub display: RecipeDisplay,
    pub requirements: Option<Vec<Allowed>>,
}

/// What a villager offers.
pub struct Offer {
    pub base_cost_a: Stack,
    /// The most of the first price that goes in one slot.
    pub max_stack: i32,
    /// What demand adds to the first price.
    pub demand_price: i32,
    pub special_price_diff: i32,
    pub cost_b: Option<Stack>,
    pub result: Option<Stack>,
    pub out_of_stock: bool,
    pub uses: i32,
    pub max_uses: i32,
    pub xp: i32,
}

pub struct Offers {
    pub container_id: i32,
    pub offers: Vec<Offer>,
    pub villager_level: u32,
    pub villager_xp: u32,
    pub show_progress: bool,
    pub can_restock: bool,
}

/// An entry of a registry, as far as a menu is named from it.
pub struct RegistryEntry {
    pub path: String,
    /// What an enchantment is called, as it reads.
    pub description: Option<String>,
    pub max_level: Option<i32>,
    /// What a banner pattern's name is looked up by.
    pub translation_key: Option<String>,
}

/// State that belongs to the menu on screen, and to the recipe book.
pub struct Menus {
    /// The window the data values below belong to. A window opening starts a new set: the values
    /// of the last one are not this one's.
    pub data_for: i32,
    /// The menu's data values, as the signed shorts the game sends them as.
    pub data: Table<u32, i16>,
    pub offers: Option<Offers>,
    pub stonecutter: Vec<Cutting>,
    /// The recipe book, in the order the server taught it.
    pub recipes: Vec<Recipe>,
    /// A book being read from the hand. A lectern is a menu and is told apart by its window.
    pub book: Option<Hand>,
}

impl Menus {
    /// A value of a window's menu, where it is the one the values belong to and was sent one.
    pub open spec fn value_of(&self, window: i32, index: u32) -> Option<i32> {
        if self.data_for == window && self.data@.dom().contains(index) {
            Some(self.data@[index] as i32)
        } else {
            None
        }
    }

    pub fn new() -> (r: Menus)
        ensures
            r.data_for == 0,
            r.data@ == Map::<u32, i16>::empty(),
            r.offers is None,
            r.stonecutter@ == Seq::<Cutting>::empty(),
            r.recipes@ == Seq::<Recipe>::empty(),
            r.book is None,
    {
        Menus {
            data_for: 0,
            data: Table::new(),
            offers: None,
            stonecutter: Vec::new(),
            recipes: Vec::new(),
            book: None,
        }
    }

    pub fn value(&self, window: i32, index: u32) -> (r: Option<i32>)
        ensures
            r == self.value_of(window, index),
    {
        if self.data_for != window {
            return None;
        }
        match self.data.get(&index) {
            Some(value) => Some(*value as i32),
            None => None,
        }
    }
}

/// What the server said while configuring the connection: the tags, and the registry entries a
/// menu is named from.
pub struct Known {
    /// Registry, then tag, then the protocol ids of its members in the order the server sent them.
    pub tags: Table<String, Table<String, Vec<i32>>>,
    pub registries: Table<String, Vec<RegistryEntry>>,
    /// The registry paths of the items, by their numbers.
    pub items: Vec<String>,
}

/// Whether a tag's members have an item among them.
pub open spec fn among(ids: Seq<i32>, item: u32) -> bool {
    exists|i: int| 0 <= i < ids.len() && (#[trigger] ids[i]) as int == item as int
}

impl Known {
    /// The members of a tag.
    pub open spec fn members(&self, registry: Seq<char>, tag: Seq<char>) -> Seq<i32> {
        if self.tags@.dom().contains(registry) && self.tags@[registry]@.dom().contains(tag) {
            self.tags@[registry]@[tag]@
        } else {
            Seq::empty()
        }
    }

    pub open spec fn entry_of(&self, registry: Seq<char>, id: int) -> Option<RegistryEntry> {
        if self.registries@.dom().contains(registry) && 0 <= id
            < self.registries@[registry]@.len() {
            Some(self.registries@[registry]@[id])
        } else {
            None
        }
    }

    pub fn new(items: Vec<String>) -> (r: Known)
        ensures
            r.tags@ == Map::<Seq<char>, Table<String, Vec<i32>>>::empty(),
            r.registries@ == Map::<Seq<char>, Vec<RegistryEntry>>::empty(),
            r.items == items,
    {
        Known { tags: Table::new(), registries: Table::new(), items }
    }

    /// The members of a tag, in the order the server sent them, where it sent them.
    pub fn tag(&self, registry: &str, tag: &str) -> (r: Option<&Vec<i32>>)
        ensures
            match r {
                Some(ids) => ids@ == self.members(registry@, tag@),
                None => self.members(registry@, tag@) == Seq::<i32>::empty(),
            },
    {
        match self.tags.get(&registry.to_owned()) {
            Some(tags) => tags.get(&tag.to_owned()),
            None => None,
        }
    }

    pub fn entry(&self, registry: &str, id: usize) -> (r: Option<&RegistryEntry>)
        ensures
            match r {
                Some(entry) => self.entry_of(registry@, id as int) == Some(*entry),
                None => self.entry_of(registry@, id as int) is None,
            },
    {
        match self.registries.get(&registry.to_owned()) {
            Some(entries) => if id < entries.len() {
                Some(&entries[id])
            } else {
                None
            },
            None => None,
        }
    }

    /// The path of an item, where there is one of that number.
    pub open spec fn path_of(&self, item: u32) -> Option<Seq<char>> {
        if item < self.items@.len() {
            Some(self.items@[item as int]@)
        } else {
            None
        }
    }

    /// The item a tag's member is, where it is one.
    pub open spec fn item_of(&self, id: i32) -> Option<u32> {
        if 0 <= id < self.items@.len() {
            Some(id as u32)
        } else {
            None
        }
    }

    pub fn item(&self, id: i32) -> (r: Option<u32>)
        ensures
            r == self.item_of(id),
    {
        if id >= 0 && (id as usize) < self.items.len() {
            Some(id as u32)
        } else {
            None
        }
    }

    /// Whether an ingredient takes an item.
    pub open spec fn takes(&self, allowed: Allowed, item: u32) -> bool {
        match allowed {
            Allowed::Direct(items) => items@.contains(item),
            Allowed::Named(tag) => among(self.members("minecraft:item"@, tag@), item),
        }
    }

    pub fn accepts(&self, allowed: &Allowed, item: u32) -> (r: bool)
        ensures
            r == self.takes(*allowed, item),
    {
        match allowed {
            Allowed::Direct(items) => {
                let mut i: usize = 0;
                while i < items.len()
                    invariant
                        i <= items@.len(),
                        *allowed == Allowed::Direct(*items),
                        forall|k: int| 0 <= k < i ==> items@[k] != item,
                    decreases items@.len() - i,
                {
                    if items[i] == item {
                        return true;
                    }
                    i += 1;
                }
                false
            },
            Allowed::Named(tag) => {
                match self.tag("minecraft:item", tag.as_str()) {
                    Some(ids) => {
                        let mut i: usize = 0;
                        while i < ids.len()
                            invariant
                                i <= ids@.len(),
                                *allowed == Allowed::Named(*tag),
                                ids@ == self.members("minecraft:item"@, tag@),
                                forall|k: int| 0 <= k < i ==> ids@[k] != item as int,
                            decreases ids@.len() - i,
                        {
                            if ids[i] >= 0 && ids[i] as u32 == item {
                                proof {
                                    assert(ids@[i as int] == item as int);
                                    assert(among(ids@, item));
                                }
                                return true;
                            }
                            i += 1;
                        }
                        false
                    },
                    None => false,
                }
            },
        }
    }
}

/// The first stack of a list of displays that stands for one.
pub open spec fn first_of(displays: Seq<SlotDisplay>, known: Known, from: int) -> Option<(u32, i32)>
    decreases displays, displays.len() - from,
{
    if from < 0 || from >= displays.len() {
        None
    } else {
        match first_item_of(displays[from], known) {
            Some(found) => Some(found),
            None => first_of(displays, known, from + 1),
        }
    }
}

/// The first stack a slot display stands for, the way the game resolves one to draw a button or
/// name an ingredient.
pub open spec fn first_item_of(display: SlotDisplay, known: Known) -> Option<(u32, i32)>
    decreases display, 0int,
{
    match display {
        SlotDisplay::Item(item) => Some((item, 1i32)),
        SlotDisplay::Stack(item, count) => Some((item, count)),
        SlotDisplay::Tag(tag) => {
            let members = known.members("minecraft:item"@, tag@);
            if members.len() > 0 {
                match known.item_of(members[0]) {
                    Some(item) => Some((item, 1i32)),
                    None => None,
                }
            } else {
                None
            }
        },
        SlotDisplay::WithRemainder(input) => first_item_of(*input, known),
        SlotDisplay::Composite(contents) => first_of(contents@, known, 0),
        SlotDisplay::Other => None,
    }
}

/// The first stack a slot display stands for, the way the game resolves one to draw a button or
/// name an ingredient. `None` is a display with nothing to show, or one that needs the world to
/// work out -- a dyed or trimmed demonstration -- which nothing here reads.
pub fn first_item(display: &SlotDisplay, known: &Known) -> (r: Option<(u32, i32)>)
    ensures
        r == first_item_of(*display, *known),
    decreases *display,
{
    match display {
        SlotDisplay::Item(item) => Some((*item, 1)),
        SlotDisplay::Stack(item, count) => Some((*item, *count)),
        SlotDisplay::Tag(tag) => match known.tag("minecraft:item", tag.as_str()) {
            Some(ids) => if ids.len() > 0 {
                match known.item(ids[0]) {
                    Some(item) => Some((item, 1)),
                    None => None,
                }
            } else {
                None
            },
            None => None,
        },
        SlotDisplay::WithRemainder(input) => first_item(&**input, known),
        SlotDisplay::Composite(contents) => {
            let mut i: usize = 0;
            while i < contents.len()
                invariant
                    i <= contents@.len(),
                    *display == SlotDisplay::Composite(*contents),
                    first_item_of(*display, *known) == first_of(contents@, *known, i as int),
                decreases contents@.len() - i,
            {
                proof {
                    assert(decreases_to!(*display => (*display)->Composite_0));
                    assert(decreases_to!(*contents => contents[i as int]));
                }
                let found = first_item(&contents[i], known);
                if found.is_some() {
                    return found;
                }
                i += 1;
            }
            None
        },
        SlotDisplay::Other => None,
    }
}

/// What of a packet the menus keep something of.
#[allow(inconsistent_fields)]
pub enum MenuPacket {
    OpenScreen { id: i32 },
    SetData { id: i32, index: u32, value: i16 },
    MerchantOffers(Offers),
    OpenBook(Hand),
    /// A new level, by a login or a respawn.
    NewLevel,
    UpdateRecipes(Vec<Cutting>),
    RecipeBookAdd { replaces: bool, entries: Vec<Recipe> },
    RecipeBookRemove(Vec<u32>),
    /// The tags of some registries: each replaced whole.
    UpdateTags(Vec<(String, Vec<(String, Vec<i32>)>)>),
    RegistryData { registry: String, entries: Vec<RegistryEntry> },
}

/// The recipes of a book but one.
pub open spec fn without_recipe(recipes: Seq<Recipe>, id: u32) -> Seq<Recipe>
    decreases recipes.len(),
{
    if recipes.len() == 0 {
        recipes
    } else if recipes.last().id == id {
        without_recipe(recipes.drop_last(), id)
    } else {
        without_recipe(recipes.drop_last(), id).push(recipes.last())
    }
}

/// The recipes of a book once some were taught, each in place of what was taught under its number.
pub open spec fn taught(recipes: Seq<Recipe>, entries: Seq<Recipe>) -> Seq<Recipe>
    decreases entries.len(),
{
    if entries.len() == 0 {
        recipes
    } else {
        without_recipe(taught(recipes, entries.drop_last()), entries.last().id).push(entries.last())
    }
}

/// The recipes of a book once some were untaught.
pub open spec fn untaught(recipes: Seq<Recipe>, ids: Seq<u32>) -> Seq<Recipe>
    decreases recipes.len(),
{
    if recipes.len() == 0 {
        recipes
    } else if ids.contains(recipes.last().id) {
        untaught(recipes.drop_last(), ids)
    } else {
        untaught(recipes.drop_last(), ids).push(recipes.last())
    }
}

fn listed(ids: &Vec<u32>, id: u32) -> (r: bool)
    ensures
        r == ids@.contains(id),
{
    let mut i: usize = 0;
    while i < ids.len()
        invariant
            i <= ids@.len(),
            forall|k: int| 0 <= k < i ==> ids@[k] != id,
        decreases ids@.len() - i,
    {
        if ids[i] == id {
            return true;
        }
        i += 1;
    }
    false
}

fn unteach(recipes: &mut Vec<Recipe>, ids: &Vec<u32>)
    ensures
        final(recipes)@ == untaught(old(recipes)@, ids@),
{
    let ghost all = recipes@;
    let mut kept: Vec<Recipe> = Vec::new();
    let mut gone: Vec<Recipe> = Vec::new();
    let ghost mut done: int = 0;
    proof {
        assert(all.skip(0) =~= all);
        assert(all.take(0) =~= Seq::<Recipe>::empty());
    }
    while recipes.len() > 0
        invariant
            0 <= done <= all.len(),
            recipes@ == all.skip(done),
            kept@ == untaught(all.take(done), ids@),
        decreases recipes@.len(),
    {
        proof {
            assert(recipes@[0] == all[done]);
            assert(recipes@.remove(0) =~= all.skip(done + 1));
            assert(all.take(done + 1).drop_last() =~= all.take(done));
            assert(all.take(done + 1).last() == all[done]);
        }
        let recipe = recipes.remove(0);
        if listed(ids, recipe.id) {
            gone.push(recipe);
        } else {
            kept.push(recipe);
        }
        proof {
            done = done + 1;
        }
    }
    proof {
        assert(all.take(done) =~= all);
    }
    recipes.append(&mut kept);
    proof {
        assert(recipes@ =~= untaught(all, ids@));
    }
}

proof fn one_untaught(recipes: Seq<Recipe>, id: u32)
    ensures
        untaught(recipes, seq![id]) == without_recipe(recipes, id),
    decreases recipes.len(),
{
    if recipes.len() > 0 {
        one_untaught(recipes.drop_last(), id);
        assert(seq![id].contains(recipes.last().id) == (recipes.last().id == id)) by {
            assert(seq![id][0] == id);
        }
    }
}

fn teach(recipes: &mut Vec<Recipe>, entries: Vec<Recipe>)
    ensures
        final(recipes)@ == taught(old(recipes)@, entries@),
{
    let ghost all = entries@;
    let ghost first = recipes@;
    let mut rest = entries;
    let ghost mut done: int = 0;
    proof {
        assert(all.skip(0) =~= all);
        assert(all.take(0) =~= Seq::<Recipe>::empty());
    }
    while rest.len() > 0
        invariant
            0 <= done <= all.len(),
            rest@ == all.skip(done),
            recipes@ == taught(first, all.take(done)),
        decreases rest@.len(),
    {
        proof {
            assert(rest@[0] == all[done]);
            assert(rest@.remove(0) =~= all.skip(done + 1));
            assert(all.take(done + 1).drop_last() =~= all.take(done));
            assert(all.take(done + 1).last() == all[done]);
        }
        let entry = rest.remove(0);
        let mut ids: Vec<u32> = Vec::new();
        ids.push(entry.id);
        proof {
            assert(ids@ =~= seq![entry.id]);
            one_untaught(recipes@, entry.id);
        }
        unteach(recipes, &ids);
        recipes.push(entry);
        proof {
            done = done + 1;
        }
    }
    proof {
        assert(all.take(done) =~= all);
    }
}

/// A recipe that is taught is in the book once, behind every other, whatever was under its number.
pub proof fn a_taught_recipe_replaces(recipes: Seq<Recipe>, entry: Recipe, i: int)
    requires
        0 <= i < taught(recipes, seq![entry]).len(),
    ensures
        taught(recipes, seq![entry]).last() == entry,
        taught(recipes, seq![entry])[i].id == entry.id ==> i == taught(recipes, seq![entry]).len()
            - 1,
{
    reveal_with_fuel(taught, 2);
    assert(seq![entry].drop_last() =~= Seq::<Recipe>::empty());
    left_out(recipes, entry.id);
}

proof fn left_out(recipes: Seq<Recipe>, id: u32)
    ensures
        forall|i: int|
            0 <= i < without_recipe(recipes, id).len() ==> (#[trigger] without_recipe(
                recipes,
                id,
            )[i]).id != id,
    decreases recipes.len(),
{
    if recipes.len() > 0 {
        left_out(recipes.drop_last(), id);
    }
}

/// The members of each tag of a registry, as a list of tags gives them.
pub open spec fn tag_map(tags: Seq<(String, Vec<i32>)>) -> Map<Seq<char>, Vec<i32>>
    decreases tags.len(),
{
    if tags.len() == 0 {
        Map::empty()
    } else {
        tag_map(tags.drop_last()).insert(tags.last().0@, tags.last().1)
    }
}

/// The tags of a registry as an update gives them last, where it gives them.
pub open spec fn last_update(
    update: Seq<(String, Vec<(String, Vec<i32>)>)>,
    registry: Seq<char>,
) -> Option<Seq<(String, Vec<i32>)>>
    decreases update.len(),
{
    if update.len() == 0 {
        None
    } else if update.last().0@ == registry {
        Some(update.last().1@)
    } else {
        last_update(update.drop_last(), registry)
    }
}

/// Whether the tags are those an update gives: each registry it names replaced whole, every other as
/// it was.
pub open spec fn tags_replaced(
    old_tags: Map<Seq<char>, Table<String, Vec<i32>>>,
    tags: Map<Seq<char>, Table<String, Vec<i32>>>,
    update: Seq<(String, Vec<(String, Vec<i32>)>)>,
) -> bool {
    forall|registry: Seq<char>|
        {
            &&& #[trigger] tags.dom().contains(registry) == (old_tags.dom().contains(registry)
                || last_update(update, registry) is Some)
            &&& match last_update(update, registry) {
                Some(list) => tags[registry]@ == tag_map(list),
                None => old_tags.dom().contains(registry) ==> tags[registry] == old_tags[registry],
            }
        }
}

fn tag_table(list: Vec<(String, Vec<i32>)>) -> (r: Table<String, Vec<i32>>)
    ensures
        r@ == tag_map(list@),
{
    let ghost all = list@;
    let mut rest = list;
    let mut out: Table<String, Vec<i32>> = Table::new();
    let ghost mut done: int = 0;
    proof {
        assert(all.skip(0) =~= all);
        assert(all.take(0) =~= Seq::<(String, Vec<i32>)>::empty());
    }
    while rest.len() > 0
        invariant
            0 <= done <= all.len(),
            rest@ == all.skip(done),
            out@ == tag_map(all.take(done)),
        decreases rest@.len(),
    {
        proof {
            assert(rest@[0] == all[done]);
            assert(rest@.remove(0) =~= all.skip(done + 1));
            assert(all.take(done + 1).drop_last() =~= all.take(done));
            assert(all.take(done + 1).last() == all[done]);
        }
        let (name, ids) = rest.remove(0);
        out.insert(name, ids);
        proof {
            done = done + 1;
        }
    }
    proof {
        assert(all.take(done) =~= all);
    }
    out
}

impl Known {
    pub fn replace_tags(&mut self, update: Vec<(String, Vec<(String, Vec<i32>)>)>)
        ensures
            *final(self) == (Known { tags: final(self).tags, ..*old(self) }),
            tags_replaced(old(self).tags@, final(self).tags@, update@),
    {
        let ghost all = update@;
        let ghost first = *self;
        let mut rest = update;
        let ghost mut done: int = 0;
        proof {
            assert(all.skip(0) =~= all);
            assert(all.take(0) =~= Seq::<(String, Vec<(String, Vec<i32>)>)>::empty());
        }
        while rest.len() > 0
            invariant
                0 <= done <= all.len(),
                rest@ == all.skip(done),
                *self == (Known { tags: self.tags, ..first }),
                tags_replaced(first.tags@, self.tags@, all.take(done)),
            decreases rest@.len(),
        {
            proof {
                assert(rest@[0] == all[done]);
                assert(rest@.remove(0) =~= all.skip(done + 1));
                assert(all.take(done + 1).drop_last() =~= all.take(done));
                assert(all.take(done + 1).last() == all[done]);
            }
            let ghost before = self.tags@;
            let (registry, list) = rest.remove(0);
            let table = tag_table(list);
            self.tags.insert(registry, table);
            proof {
                done = done + 1;
                let part = all.take(done);
                assert(part.drop_last() =~= all.take(done - 1));
                assert(part.last() == all[done - 1]);
                assert(self.tags@[registry@] == table);
                assert forall|name: Seq<char>|
                    #[trigger] self.tags@.dom().contains(name) == (first.tags@.dom().contains(name)
                        || last_update(part, name) is Some) && match last_update(part, name) {
                        Some(list) => self.tags@[name]@ == tag_map(list),
                        None => first.tags@.dom().contains(name) ==> self.tags@[name]
                            == first.tags@[name],
                    } by {
                    assert(before.dom().contains(name) == (first.tags@.dom().contains(name)
                        || last_update(part.drop_last(), name) is Some));
                }
            }
        }
        proof {
            assert(all.take(done) =~= all);
        }
    }
}

/// What a packet makes of what is kept of the menus.
pub open spec fn menus_keep(
    old_menus: Menus,
    menus: Menus,
    old_known: Known,
    known: Known,
    packet: MenuPacket,
) -> bool {
    match packet {
        MenuPacket::OpenScreen { id } => {
            &&& known == old_known
            &&& menus == Menus {
                data_for: id,
                data: menus.data,
                offers: None,
                book: None,
                ..old_menus
            }
            &&& menus.data@ == Map::<u32, i16>::empty()
        },
        MenuPacket::SetData { id, index, value } => {
            &&& known == old_known
            &&& menus == Menus { data_for: id, data: menus.data, ..old_menus }
            &&& menus.data@ == if old_menus.data_for == id {
                old_menus.data@.insert(index, value)
            } else {
                Map::<u32, i16>::empty().insert(index, value)
            }
        },
        MenuPacket::MerchantOffers(offers) => known == old_known && menus == Menus {
            offers: Some(offers),
            ..old_menus
        },
        MenuPacket::OpenBook(hand) => known == old_known && menus == Menus {
            book: Some(hand),
            ..old_menus
        },
        MenuPacket::NewLevel => known == old_known && menus == Menus { book: None, ..old_menus },
        MenuPacket::UpdateRecipes(list) => known == old_known && menus == Menus {
            stonecutter: list,
            ..old_menus
        },
        MenuPacket::RecipeBookAdd { replaces, entries } => {
            &&& known == old_known
            &&& menus == Menus { recipes: menus.recipes, ..old_menus }
            &&& menus.recipes@ == taught(
                if replaces {
                    Seq::empty()
                } else {
                    old_menus.recipes@
                },
                entries@,
            )
        },
        MenuPacket::RecipeBookRemove(ids) => {
            &&& known == old_known
            &&& menus == Menus { recipes: menus.recipes, ..old_menus }
            &&& menus.recipes@ == untaught(old_menus.recipes@, ids@)
        },
        MenuPacket::UpdateTags(update) => {
            &&& menus == old_menus
            &&& known == Known { tags: known.tags, ..old_known }
            &&& tags_replaced(old_known.tags@, known.tags@, update@)
        },
        MenuPacket::RegistryData { registry, entries } => {
            &&& menus == old_menus
            &&& known == Known { registries: known.registries, ..old_known }
            &&& known.registries@ == if is_kept_registry(registry@) {
                old_known.registries@.insert(registry@, entries)
            } else {
                old_known.registries@
            }
        },
    }
}

/// Take what a packet says into what is kept of the menus. A new level puts the client's loading
/// screen up in place of whatever was open, a book included.
pub fn keep_game(menus: &mut Menus, known: &mut Known, packet: MenuPacket)
    ensures
        menus_keep(*old(menus), *final(menus), *old(known), *final(known), packet),
{
    match packet {
        MenuPacket::OpenScreen { id } => {
            menus.data_for = id;
            menus.data.clear();
            menus.offers = None;
            menus.book = None;
        },
        MenuPacket::SetData { id, index, value } => {
            if menus.data_for != id {
                menus.data_for = id;
                menus.data.clear();
            }
            menus.data.insert(index, value);
        },
        MenuPacket::MerchantOffers(offers) => {
            menus.offers = Some(offers);
        },
        MenuPacket::OpenBook(hand) => {
            menus.book = Some(hand);
        },
        MenuPacket::NewLevel => {
            menus.book = None;
        },
        MenuPacket::UpdateRecipes(list) => {
            menus.stonecutter = list;
        },
        MenuPacket::RecipeBookAdd { replaces, entries } => {
            if replaces {
                menus.recipes.clear();
            }
            teach(&mut menus.recipes, entries);
        },
        MenuPacket::RecipeBookRemove(ids) => unteach(&mut menus.recipes, &ids),
        MenuPacket::UpdateTags(update) => known.replace_tags(update),
        MenuPacket::RegistryData { registry, entries } => {
            if same(registry.as_str(), "minecraft:enchantment") || same(
                registry.as_str(),
                "minecraft:banner_pattern",
            ) {
                known.registries.insert(registry, entries);
            }
        },
    }
}

/// The values of a window that opens are its own: none is read of it before one was sent for it.
pub proof fn a_window_opens_with_no_values(
    old_menus: Menus,
    menus: Menus,
    old_known: Known,
    known: Known,
    id: i32,
    window: i32,
    index: u32,
)
    requires
        menus_keep(old_menus, menus, old_known, known, (MenuPacket::OpenScreen { id })),
    ensures
        menus.value_of(window, index) is None,
        menus.offers is None,
        menus.book is None,
{
}

/// A value that was sent for a window is what is read of it there.
pub proof fn a_value_reads_back(
    old_menus: Menus,
    menus: Menus,
    old_known: Known,
    known: Known,
    id: i32,
    index: u32,
    value: i16,
)
    requires
        menus_keep(
            old_menus,
            menus,
            old_known,
            known,
            (MenuPacket::SetData { id, index, value }),
        ),
    ensures
        menus.value_of(id, index) == Some(value as i32),
{
}

/// What is taught stands at the end of the book, in the place of what had its id; a book that is
/// replaced starts over.
pub proof fn a_recipe_is_taught_at_the_end(
    old_menus: Menus,
    menus: Menus,
    old_known: Known,
    known: Known,
    replaces: bool,
    entries: Vec<Recipe>,
)
    requires
        menus_keep(
            old_menus,
            menus,
            old_known,
            known,
            (MenuPacket::RecipeBookAdd { replaces, entries }),
        ),
    ensures
        entries@.len() > 0 ==> menus.recipes@.len() > 0 && menus.recipes@.last() == entries@.last(),
        entries@.len() == 0 && replaces ==> menus.recipes@.len() == 0,
        entries@.len() == 0 && !replaces ==> menus.recipes@ == old_menus.recipes@,
        known == old_known,
{
}

/// A recipe that is taken away is gone, and the others stay.
pub proof fn a_recipe_taken_away_is_gone(recipes: Seq<Recipe>, ids: Seq<u32>, recipe: Recipe)
    ensures
        untaught(recipes, ids).contains(recipe) <==> recipes.contains(recipe) && !ids.contains(
            recipe.id,
        ),
    decreases recipes.len(),
{
    if recipes.len() > 0 {
        let rest = recipes.drop_last();
        a_recipe_taken_away_is_gone(rest, ids, recipe);
        let less = untaught(rest, ids);
        let all = untaught(recipes, ids);
        if all.contains(recipe) {
            let i = all.index_of(recipe);
            if i < less.len() {
                assert(less[i] == recipe);
                let j = rest.index_of(recipe);
                assert(recipes[j] == recipe);
            } else {
                assert(recipes[recipes.len() - 1] == recipe);
            }
        }
        if recipes.contains(recipe) && !ids.contains(recipe.id) {
            let j = recipes.index_of(recipe);
            if j < rest.len() {
                assert(rest[j] == recipe);
                let i = less.index_of(recipe);
                assert(all[i] == recipe);
            } else {
                assert(all[all.len() - 1] == recipe);
            }
        }
    }
}

/// What a menu packet leaves behind reads back: the offers of a trade, the book that is open, what a
/// stonecutter cuts, and a registry that is kept.
pub proof fn what_a_menu_is_sent_reads_back(
    old_menus: Menus,
    menus: Menus,
    old_known: Known,
    known: Known,
    packet: MenuPacket,
)
    requires
        menus_keep(old_menus, menus, old_known, known, packet),
    ensures
        packet matches MenuPacket::MerchantOffers(offers) ==> menus.offers == Some(offers)
            && menus.recipes == old_menus.recipes && menus.book == old_menus.book,
        packet matches MenuPacket::OpenBook(hand) ==> menus.book == Some(hand) && menus.offers
            == old_menus.offers,
        packet is NewLevel ==> menus.book is None && menus.offers == old_menus.offers,
        packet matches MenuPacket::UpdateRecipes(list) ==> menus.stonecutter == list,
        packet matches MenuPacket::OpenScreen { id } ==> menus.offers is None && menus.book is None
            && menus.data_for == id && menus.recipes == old_menus.recipes,
        packet matches MenuPacket::SetData { id, index, value } ==> menus.value_of(id, index) == Some(
            value as i32,
        ),
        packet matches MenuPacket::RegistryData { registry, entries } ==> (registry@
            == "minecraft:enchantment"@ || registry@ == "minecraft:banner_pattern"@
            ==> known.registries@[registry@] == entries),
        packet matches MenuPacket::RecipeBookRemove(ids) ==> menus.recipes@ == untaught(
            old_menus.recipes@,
            ids@,
        ),
{
}

/// A tag that is sent replaces what its registry had, and the other registries stay.
pub proof fn tags_are_replaced_by_registry(
    old_tags: Map<Seq<char>, Table<String, Vec<i32>>>,
    tags: Map<Seq<char>, Table<String, Vec<i32>>>,
    update: Seq<(String, Vec<(String, Vec<i32>)>)>,
    other: Seq<char>,
)
    requires
        tags_replaced(old_tags, tags, update),
        update.len() > 0,
    ensures
        tags.dom().contains(update.last().0@),
        tags[update.last().0@]@ == tag_map(update.last().1@),
        last_update(update, other) is None && old_tags.dom().contains(other) ==> tags.dom().contains(
            other,
        ) && tags[other] == old_tags[other],
{
    assert(last_update(update, update.last().0@) == Some(update.last().1@));
    assert(tags.dom().contains(update.last().0@));
    assert(tags.dom().contains(other) == (old_tags.dom().contains(other) || last_update(
        update,
        other,
    ) is Some));
}

/// What an ingredient takes: the items it lists, or those its tag has.
pub proof fn an_ingredient_takes_what_it_lists(known: Known, items: Vec<u32>, tag: String, item: u32)
    ensures
        known.takes(Allowed::Direct(items), item) <==> items@.contains(item),
        known.takes(Allowed::Named(tag), item) <==> exists|i: int|
            0 <= i < known.members("minecraft:item"@, tag@).len() && (#[trigger] known.members(
                "minecraft:item"@,
                tag@,
            )[i]) as int == item as int,
{
}

/// The first item a slot shows: the item or the stack itself, a tag's first member, what a remainder is
/// left of, and the first of several that shows something.
pub proof fn the_first_item_is_what_is_shown(known: Known, item: u32, count: i32, tag: String, inner: SlotDisplay)
    ensures
        first_item_of(SlotDisplay::Item(item), known) == Some((item, 1i32)),
        first_item_of(SlotDisplay::Stack(item, count), known) == Some((item, count)),
        first_item_of(SlotDisplay::Other, known) is None,
        ({
            let members = known.members("minecraft:item"@, tag@);
            &&& members.len() == 0 ==> first_item_of(SlotDisplay::Tag(tag), known) is None
            &&& members.len() > 0 && 0 <= members[0] < known.items@.len() ==> first_item_of(
                SlotDisplay::Tag(tag),
                known,
            ) == Some((members[0] as u32, 1i32))
        }),
        first_item_of(SlotDisplay::WithRemainder(Box::new(inner)), known) == first_item_of(inner, known),
{
}

/// A value, a member of a tag and an entry of a registry are found where they were put.
pub proof fn what_is_known_is_found_where_it_was_put(
    menus: Menus,
    known: Known,
    window: i32,
    index: u32,
    registry: Seq<char>,
    tag: Seq<char>,
    id: int,
    item: u32,
)
    ensures
        menus.data_for != window ==> menus.value_of(window, index) is None,
        menus.data_for == window && menus.data@.dom().contains(index) ==> menus.value_of(window, index)
            == Some(menus.data@[index] as i32),
        known.tags@.dom().contains(registry) && known.tags@[registry]@.dom().contains(tag)
            ==> known.members(registry, tag) == known.tags@[registry]@[tag]@,
        !known.tags@.dom().contains(registry) ==> known.members(registry, tag).len() == 0,
        known.registries@.dom().contains(registry) && 0 <= id < known.registries@[registry]@.len()
            ==> known.entry_of(registry, id) == Some(known.registries@[registry]@[id]),
        !known.registries@.dom().contains(registry) ==> known.entry_of(registry, id) is None,
        item < known.items@.len() ==> known.path_of(item) == Some(known.items@[item as int]@),
        item >= known.items@.len() ==> known.path_of(item) is None,
{
}

/// The first item of several displays is that of the first which has one.
pub proof fn the_first_display_with_an_item_is_shown(contents: Vec<SlotDisplay>, known: Known, item: u32, count: i32)
    ensures
        first_item_of(SlotDisplay::Item(item), known) == Some((item, 1i32)),
        first_item_of(SlotDisplay::Stack(item, count), known) == Some((item, count)),
        first_item_of(SlotDisplay::Other, known) is None,
        contents@.len() == 0 ==> first_item_of(SlotDisplay::Composite(contents), known) is None,
        contents@.len() > 0 ==> (first_item_of(contents@[0], known) is Some ==> first_item_of(
            SlotDisplay::Composite(contents),
            known,
        ) == first_item_of(contents@[0], known)),
        contents@.len() > 1 && first_item_of(contents@[0], known) is None ==> (first_item_of(
            contents@[1],
            known,
        ) is Some ==> first_item_of(SlotDisplay::Composite(contents), known) == first_item_of(
            contents@[1],
            known,
        )),
{
    let whole = SlotDisplay::Composite(contents);
    assert(first_item_of(whole, known) == first_of(contents@, known, 0));
    if contents@.len() > 0 {
        assert(first_of(contents@, known, 0) == match first_item_of(contents@[0], known) {
            Some(found) => Some(found),
            None => first_of(contents@, known, 1),
        });
    }
    if contents@.len() > 1 {
        assert(first_of(contents@, known, 1) == match first_item_of(contents@[1], known) {
            Some(found) => Some(found),
            None => first_of(contents@, known, 2),
        });
    }
}

} // verus!
