//! What the open menu lets a player press, as opposed to click: an enchanting table's offers, a
//! stonecutter's results, a loom's patterns, a lectern's page turns, and a beacon's effects.
//!
//! None of these is a slot. The screen draws them from numbers the menu was sent and sends a button
//! number back, and the number means something different on every menu, so a caller chooses by name
//! and the number is worked out here from the same numbers the screen draws from.
use vstd::prelude::*;

use crate::calls::{Answer, AnswerView, Failure, FailureView};
use crate::json::{a_field_reads_back, an_empty_object_has_nothing, docs, Doc, Json, Number};
use crate::menus::{first_item, first_item_of, Cutting, Known, RegistryEntry};
use crate::pattern::{expression_group, group};
use crate::table::Table;
use crate::tools::args::{given, integer, integer_of, text, text_of};
use crate::tools::stacks::{needle, needle_of, Stack};
use crate::tools::windows::{kind, kind_name, Menu};
use crate::words::{
    cat2, cat3, cat4, cat5, cat6, cat7, contains, dec, equals_ignoring_case, join, joined,
    literals, lowercase, lowercase_of, occurs, parse_i64, integer_value, quote, quoted, same,
    same_but_case, signed, texts, trim, trimmed,
};

verus! {

pub const LECTERN_PREVIOUS: i32 = 1;

pub const LECTERN_NEXT: i32 = 2;

pub const LECTERN_TAKE: i32 = 3;

pub const LECTERN_JUMP: i32 = 100;

/// A beacon's secondary effect needs this many levels under it.
pub const SECONDARY_LEVELS: i32 = 4;

pub struct Choice {
    pub button: i32,
    pub name: Option<String>,
    pub label: Option<String>,
    pub count: Option<i32>,
    pub levels: Option<i32>,
    pub lapis: Option<i32>,
    pub available: bool,
    pub selected: bool,
}

pub struct ChoiceView {
    pub button: int,
    pub name: Option<Seq<char>>,
    pub label: Option<Seq<char>>,
    pub count: Option<i32>,
    pub levels: Option<i32>,
    pub lapis: Option<i32>,
    pub available: bool,
    pub selected: bool,
}

pub open spec fn text_view(text: Option<String>) -> Option<Seq<char>> {
    match text {
        Some(text) => Some(text@),
        None => None,
    }
}

impl View for Choice {
    type V = ChoiceView;

    open spec fn view(&self) -> ChoiceView {
        ChoiceView {
            button: self.button as int,
            name: text_view(self.name),
            label: text_view(self.label),
            count: self.count,
            levels: self.levels,
            lapis: self.lapis,
            available: self.available,
            selected: self.selected,
        }
    }
}

pub open spec fn choice_views(list: Seq<Choice>) -> Seq<ChoiceView> {
    Seq::new(list.len(), |i: int| list[i]@)
}

pub open spec fn text_or_null(text: Option<Seq<char>>) -> Doc {
    match text {
        Some(text) => Doc::Text(text),
        None => Doc::Null,
    }
}

pub open spec fn number_or_null(number: Option<i32>) -> Doc {
    match number {
        Some(number) => Doc::number(number as int),
        None => Doc::Null,
    }
}

fn text_json(text: &Option<String>) -> (r: Json)
    ensures
        r@ == text_or_null(text_view(*text)),
{
    match text {
        Some(text) => Json::Text(text.clone()),
        None => Json::Null,
    }
}

fn number_json(number: Option<i32>) -> (r: Json)
    ensures
        r@ == number_or_null(number),
{
    match number {
        Some(number) => Json::number(number as i64),
        None => Json::Null,
    }
}

impl ChoiceView {
    pub open spec fn plain_of(button: int, name: Seq<char>, available: bool) -> ChoiceView {
        ChoiceView {
            button,
            name: Some(name),
            label: None,
            count: None,
            levels: None,
            lapis: None,
            available,
            selected: false,
        }
    }

    pub open spec fn doc(self) -> Doc {
        Doc::object().with("button"@, Doc::number(self.button)).with(
            "name"@,
            text_or_null(self.name),
        ).with("label"@, text_or_null(self.label)).with("count"@, number_or_null(self.count)).with(
            "levels"@,
            number_or_null(self.levels),
        ).with("lapis"@, number_or_null(self.lapis)).with("available"@, Doc::Bool(self.available)).with(
            "selected"@,
            Doc::Bool(self.selected),
        )
    }

    /// How a refusal names it: the words a caller would type to choose it.
    pub open spec fn spoken_of(self) -> Seq<char> {
        match self.label {
            Some(label) => quoted(label),
            None => match self.name {
                Some(name) => quoted(name),
                None => "button "@ + dec(self.button),
            },
        }
    }

    pub open spec fn is_called(self, lowered: Seq<char>) -> bool {
        (self.label matches Some(label) && lowercase_of(label) == lowered) || (
        self.name matches Some(name) && lowercase_of(name) == lowered)
    }

    pub open spec fn sounds_like(self, lowered: Seq<char>) -> bool {
        (self.label matches Some(label) && occurs(lowercase_of(label), lowered)) || (
        self.name matches Some(name) && occurs(lowercase_of(name), lowered))
    }
}

impl Choice {
    pub fn plain(button: i32, name: &str, available: bool) -> (r: Choice)
        ensures
            r@ == ChoiceView::plain_of(button as int, name@, available),
    {
        Choice {
            button,
            name: Some(name.to_owned()),
            label: None,
            count: None,
            levels: None,
            lapis: None,
            available,
            selected: false,
        }
    }

    pub fn json(&self) -> (r: Json)
        ensures
            r@ == self@.doc(),
    {
        Json::object().with("button", Json::number(self.button as i64)).with(
            "name",
            text_json(&self.name),
        ).with("label", text_json(&self.label)).with("count", number_json(self.count)).with(
            "levels",
            number_json(self.levels),
        ).with("lapis", number_json(self.lapis)).with("available", Json::Bool(self.available)).with(
            "selected",
            Json::Bool(self.selected),
        )
    }

    pub fn spoken(&self) -> (r: String)
        ensures
            r@ == self@.spoken_of(),
    {
        match &self.label {
            Some(label) => quote(label.as_str()),
            None => match &self.name {
                Some(name) => quote(name.as_str()),
                None => cat2("button ", signed(self.button as i64).as_str()),
            },
        }
    }

    fn called(&self, lowered: &str) -> (r: bool)
        ensures
            r == self@.is_called(lowered@),
    {
        let by_label: bool = match &self.label {
            Some(label) => same(lowercase(label.as_str()).as_str(), lowered),
            None => false,
        };
        by_label || match &self.name {
            Some(name) => same(lowercase(name.as_str()).as_str(), lowered),
            None => false,
        }
    }

    fn alike(&self, lowered: &str) -> (r: bool)
        ensures
            r == self@.sounds_like(lowered@),
    {
        let by_label: bool = match &self.label {
            Some(label) => contains(lowercase(label.as_str()).as_str(), lowered),
            None => false,
        };
        by_label || match &self.name {
            Some(name) => contains(lowercase(name.as_str()).as_str(), lowered),
            None => false,
        }
    }
}

/// The banner patterns an item in the loom provides.
pub enum Patterns {
    /// The item provides none.
    Nothing,
    /// These, by number.
    Direct(Vec<i32>),
    /// Those of a tag.
    Named(String),
}

/// Everything a menu's options are read from, taken in one go.
pub struct Reading {
    pub menu: Menu,
    pub title: Json,
    pub slots: Vec<Option<Stack>>,
    pub known: Known,
    pub stonecutter: Vec<Cutting>,
    /// The menu's data values, where the server has sent them. A selection nobody has made is -1 in
    /// the game, and a value that has not arrived reads as that rather than as the first option.
    pub data: Vec<Option<i32>>,
    pub level: i32,
    pub creative: bool,
    pub may_build: bool,
    /// The pages of the book on a lectern, whichever kind of book it is.
    pub pages: i32,
    /// The colour of the dye in a loom, and the patterns of the pattern item in it.
    pub dye: Option<String>,
    pub patterns: Patterns,
    /// The words the client's language has, by their keys.
    pub language: Table<String, String>,
    /// What the client's language calls the items, by their numbers.
    pub item_names: Vec<String>,
    /// The paths of the mob effects, by their numbers.
    pub effects: Vec<String>,
}

pub open spec fn value_at(data: Seq<Option<i32>>, index: int, otherwise: i32) -> i32 {
    if 0 <= index < data.len() {
        match data[index] {
            Some(value) => value,
            None => otherwise,
        }
    } else {
        otherwise
    }
}

impl Reading {
    pub open spec fn data_of(&self, index: int) -> i32 {
        value_at(self.data@, index, 0)
    }

    pub open spec fn slot_of(&self, index: int) -> Option<Stack> {
        if 0 <= index < self.slots@.len() {
            self.slots@[index]
        } else {
            None
        }
    }

    pub open spec fn count_of(&self, index: int) -> i32 {
        match self.slot_of(index) {
            Some(stack) => stack.count,
            None => 0,
        }
    }

    /// What the client's language has for a key, and the key itself where it has nothing.
    pub open spec fn words_for(&self, key: Seq<char>) -> Seq<char> {
        if self.language@.dom().contains(key) {
            self.language@[key]@
        } else {
            key
        }
    }

    fn value(&self, index: usize, otherwise: i32) -> (r: i32)
        ensures
            r == value_at(self.data@, index as int, otherwise),
    {
        if index < self.data.len() {
            match self.data[index] {
                Some(value) => value,
                None => otherwise,
            }
        } else {
            otherwise
        }
    }

    fn slot_empty(&self, index: usize) -> (r: bool)
        ensures
            r == (self.slot_of(index as int) is None),
    {
        if index < self.slots.len() {
            self.slots[index].is_none()
        } else {
            true
        }
    }

    fn slot_count(&self, index: usize) -> (r: i32)
        ensures
            r == self.count_of(index as int),
    {
        if index < self.slots.len() {
            match &self.slots[index] {
                Some(stack) => stack.count,
                None => 0,
            }
        } else {
            0
        }
    }

    fn translated(&self, key: String) -> (r: String)
        ensures
            r@ == self.words_for(key@),
    {
        match self.language.get(&key) {
            Some(words) => words.clone(),
            None => key,
        }
    }

    /// An enchantment as the table's tooltip names it: its description, and the level after it unless
    /// it only ever has the one.
    pub open spec fn enchantment_name_of(&self, entry: RegistryEntry, level: i32) -> Option<
        Seq<char>,
    > {
        match entry.description {
            None => None,
            Some(description) => {
                let most = match entry.max_level {
                    Some(most) => most,
                    None => 1,
                };
                if level != 1 || most != 1 {
                    Some(
                        description@ + " "@ + self.words_for(
                            "enchantment.level."@ + dec(level as int),
                        ),
                    )
                } else {
                    Some(description@)
                }
            },
        }
    }

    fn enchantment_name(&self, entry: &RegistryEntry, level: i32) -> (r: Option<String>)
        ensures
            text_view(r) == self.enchantment_name_of(*entry, level),
    {
        match &entry.description {
            None => None,
            Some(description) => {
                let most: i32 = match entry.max_level {
                    Some(most) => most,
                    None => 1,
                };
                if level != 1 || most != 1 {
                    let numeral = self.translated(
                        cat2("enchantment.level.", signed(level as i64).as_str()),
                    );
                    Some(cat3(description.as_str(), " ", numeral.as_str()))
                } else {
                    Some(description.clone())
                }
            },
        }
    }

    /// An offer of the enchanting table. One with no cost is a slot the table has nothing in, not a
    /// free one.
    pub open spec fn offer_of(&self, button: int) -> Option<ChoiceView> {
        let cost = self.data_of(button);
        if cost <= 0 {
            None
        } else {
            let clue = value_at(self.data@, 4 + button, -1i32 as i32);
            let level = self.data_of(7 + button);
            let lapis = button + 1;
            let entry = if clue >= 0 {
                self.known.entry_of("minecraft:enchantment"@, clue as int)
            } else {
                None
            };
            Some(
                ChoiceView {
                    button,
                    name: match entry {
                        Some(entry) => Some(entry.path@),
                        None => None,
                    },
                    label: match entry {
                        Some(entry) => self.enchantment_name_of(entry, level),
                        None => None,
                    },
                    count: None,
                    levels: Some(cost),
                    lapis: Some(lapis as i32),
                    available: self.slot_of(0) is Some && (self.creative || (self.count_of(1)
                        >= lapis && self.level >= cost)),
                    selected: false,
                },
            )
        }
    }

    /// The first `n` of the three offers, from the costs and clues the server pushed into the menu.
    pub open spec fn offers_of(&self, n: int) -> Seq<ChoiceView>
        decreases n,
    {
        if n <= 0 {
            Seq::empty()
        } else {
            match self.offer_of(n - 1) {
                Some(offer) => self.offers_of(n - 1).push(offer),
                None => self.offers_of(n - 1),
            }
        }
    }

    fn enchanting(&self) -> (r: Vec<Choice>)
        ensures
            choice_views(r@) == self.offers_of(3),
    {
        let mut out: Vec<Choice> = Vec::new();
        let mut button: usize = 0;
        proof {
            assert(choice_views(out@) =~= self.offers_of(0));
        }
        while button < 3
            invariant
                button <= 3,
                choice_views(out@) == self.offers_of(button as int),
            decreases 3 - button,
        {
            let ghost before = out@;
            let cost: i32 = self.value(button, 0);
            if cost > 0 {
                let clue: i32 = self.value(4 + button, -1);
                let level: i32 = self.value(7 + button, 0);
                let lapis: i32 = button as i32 + 1;
                let entry: Option<&RegistryEntry> = if clue >= 0 {
                    self.known.entry("minecraft:enchantment", clue as usize)
                } else {
                    None
                };
                let name = match entry {
                    Some(entry) => Some(entry.path.clone()),
                    None => None,
                };
                let label = match entry {
                    Some(entry) => self.enchantment_name(entry, level),
                    None => None,
                };
                out.push(
                    Choice {
                        button: button as i32,
                        name,
                        label,
                        count: None,
                        levels: Some(cost),
                        lapis: Some(lapis),
                        available: !self.slot_empty(0) && (self.creative || (self.slot_count(1)
                            >= lapis && self.level >= cost)),
                        selected: false,
                    },
                );
                proof {
                    assert(choice_views(out@) =~= choice_views(before).push(out@.last()@));
                }
            }
            button += 1;
        }
        out
    }

    /// A result of the stonecutter for an item, as its recipe shows it.
    pub open spec fn cut_of(&self, cutting: Cutting, item: u32) -> Option<(u32, i32)> {
        if self.known.takes(cutting.input, item) {
            first_item_of(cutting.display, self.known)
        } else {
            None
        }
    }

    pub open spec fn item_path(&self, item: u32) -> Seq<char> {
        match self.known.path_of(item) {
            Some(path) => path,
            None => Seq::empty(),
        }
    }

    pub open spec fn item_name(&self, item: u32) -> Seq<char> {
        if item < self.item_names@.len() {
            self.item_names@[item as int]@
        } else {
            self.item_path(item)
        }
    }

    /// The results for an item by the first `n` recipes, in the order the server listed them. The
    /// result on the button is all there is to name one by.
    pub open spec fn cuts_of(&self, item: u32, n: int) -> Seq<ChoiceView>
        decreases n,
    {
        if n <= 0 {
            Seq::empty()
        } else {
            let before = self.cuts_of(item, n - 1);
            match self.cut_of(self.stonecutter@[n - 1], item) {
                Some((result, count)) => before.push(
                    ChoiceView {
                        button: before.len() as int,
                        name: Some(self.item_path(result)),
                        label: Some(self.item_name(result)),
                        count: Some(count),
                        levels: None,
                        lapis: None,
                        available: true,
                        selected: value_at(self.data@, 0, -1i32 as i32) == before.len(),
                    },
                ),
                None => before,
            }
        }
    }

    fn path(&self, item: u32) -> (r: String)
        ensures
            r@ == self.item_path(item),
    {
        if (item as usize) < self.known.items.len() {
            self.known.items[item as usize].clone()
        } else {
            proof {
                reveal_strlit("");
                assert(""@ =~= Seq::empty());
            }
            "".to_owned()
        }
    }

    fn stonecutter(&self) -> (r: Vec<Choice>)
        requires
            self.stonecutter@.len() <= i32::MAX,
        ensures
            choice_views(r@) == match self.slot_of(0) {
                Some(stack) => self.cuts_of(stack.item, self.stonecutter@.len() as int),
                None => Seq::empty(),
            },
    {
        let mut out: Vec<Choice> = Vec::new();
        proof {
            assert(choice_views(out@) =~= Seq::empty());
        }
        if self.slots.len() == 0 {
            return out;
        }
        let item: u32 = match &self.slots[0] {
            Some(stack) => stack.item,
            None => {
                return out;
            },
        };
        let selected: i32 = self.value(0, -1);
        let mut i: usize = 0;
        while i < self.stonecutter.len()
            invariant
                i <= self.stonecutter@.len() <= i32::MAX,
                self.slot_of(0) matches Some(stack) && stack.item == item,
                selected == value_at(self.data@, 0, -1i32 as i32),
                out@.len() <= i,
                choice_views(out@) == self.cuts_of(item, i as int),
            decreases self.stonecutter@.len() - i,
        {
            let ghost before = out@;
            proof {
                assert(choice_views(out@).len() == out@.len());
            }
            let cutting = &self.stonecutter[i];
            if self.known.accepts(&cutting.input, item) {
                match first_item(&cutting.display, &self.known) {
                    Some((result, count)) => {
                        let button: i32 = out.len() as i32;
                        let name = self.path(result);
                        let label = if (result as usize) < self.item_names.len() {
                            self.item_names[result as usize].clone()
                        } else {
                            self.path(result)
                        };
                        out.push(
                            Choice {
                                button,
                                name: Some(name),
                                label: Some(label),
                                count: Some(count),
                                levels: None,
                                lapis: None,
                                available: true,
                                selected: selected == button,
                            },
                        );
                        proof {
                            assert(choice_views(out@) =~= choice_views(before).push(out@.last()@));
                        }
                    },
                    None => {},
                }
            }
            i += 1;
        }
        out
    }

    /// The patterns a loom offers: those that need no item, or those its pattern item provides.
    pub open spec fn pattern_ids(&self) -> Seq<i32> {
        if self.slot_of(2) is None {
            self.known.members("minecraft:banner_pattern"@, "minecraft:no_item_required"@)
        } else {
            match self.patterns {
                Patterns::Direct(ids) => ids@,
                Patterns::Named(tag) => self.known.members("minecraft:banner_pattern"@, tag@),
                Patterns::Nothing => Seq::empty(),
            }
        }
    }

    /// A pattern the loom offers, named by its own id and by what the banner's tooltip would call it
    /// in the dye.
    pub open spec fn pattern_of(&self, id: i32, button: int) -> ChoiceView {
        let entry = if id >= 0 {
            self.known.entry_of("minecraft:banner_pattern"@, id as int)
        } else {
            None
        };
        ChoiceView {
            button,
            name: match entry {
                Some(entry) => Some(entry.path@),
                None => None,
            },
            label: match (
                match entry {
                    Some(entry) => text_view(entry.translation_key),
                    None => None,
                },
                text_view(self.dye),
            ) {
                (Some(key), Some(color)) => Some(self.words_for(key + "."@ + color)),
                _ => None,
            },
            count: None,
            levels: None,
            lapis: None,
            available: true,
            selected: value_at(self.data@, 0, -1i32 as i32) == button,
        }
    }

    /// Every pattern the loom offers for the banner and dye in it.
    pub open spec fn loom_of(&self) -> Seq<ChoiceView> {
        if self.slot_of(0) is None || self.slot_of(1) is None {
            Seq::empty()
        } else {
            Seq::new(self.pattern_ids().len(), |i: int| self.pattern_of(self.pattern_ids()[i], i))
        }
    }

    fn loom(&self) -> (r: Vec<Choice>)
        requires
            self.pattern_ids().len() <= i32::MAX,
        ensures
            choice_views(r@) == self.loom_of(),
    {
        let mut out: Vec<Choice> = Vec::new();
        proof {
            assert(choice_views(out@) =~= Seq::empty());
        }
        if self.slot_empty(0) || self.slot_empty(1) {
            return out;
        }
        let none: Vec<i32> = Vec::new();
        let ids: &Vec<i32> = if self.slot_empty(2) {
            match self.known.tag("minecraft:banner_pattern", "minecraft:no_item_required") {
                Some(ids) => ids,
                None => &none,
            }
        } else {
            match &self.patterns {
                Patterns::Direct(ids) => ids,
                Patterns::Named(tag) => match self.known.tag(
                    "minecraft:banner_pattern",
                    tag.as_str(),
                ) {
                    Some(ids) => ids,
                    None => &none,
                },
                Patterns::Nothing => &none,
            }
        };
        let selected: i32 = self.value(0, -1);
        let mut i: usize = 0;
        while i < ids.len()
            invariant
                i <= ids@.len() <= i32::MAX,
                ids@ == self.pattern_ids(),
                selected == value_at(self.data@, 0, -1i32 as i32),
                out@.len() == i,
                forall|k: int| 0 <= k < i ==> (#[trigger] out@[k])@ == self.pattern_of(ids@[k], k),
            decreases ids@.len() - i,
        {
            let id: i32 = ids[i];
            let entry: Option<&RegistryEntry> = if id >= 0 {
                self.known.entry("minecraft:banner_pattern", id as usize)
            } else {
                None
            };
            let name = match entry {
                Some(entry) => Some(entry.path.clone()),
                None => None,
            };
            let label: Option<String> = match (entry, &self.dye) {
                (Some(entry), Some(color)) => match &entry.translation_key {
                    Some(key) => Some(
                        self.translated(cat3(key.as_str(), ".", color.as_str())),
                    ),
                    None => None,
                },
                _ => None,
            };
            out.push(
                Choice {
                    button: i as i32,
                    name,
                    label,
                    count: None,
                    levels: None,
                    lapis: None,
                    available: true,
                    selected: selected == i as i32,
                },
            );
            i += 1;
        }
        proof {
            assert(choice_views(out@) =~= self.loom_of());
        }
        out
    }

    /// Turning a page is a button the server answers, not a widget: the page moves when it says so.
    pub open spec fn lectern_of(&self) -> Seq<ChoiceView> {
        seq![
            ChoiceView::plain_of(
                LECTERN_PREVIOUS as int,
                "previous page"@,
                self.data_of(0) > 0,
            ),
            ChoiceView::plain_of(
                LECTERN_NEXT as int,
                "next page"@,
                self.data_of(0) < self.pages - 1,
            ),
            ChoiceView::plain_of(LECTERN_TAKE as int, "take book"@, self.may_build),
        ]
    }

    fn lectern(&self) -> (r: Vec<Choice>)
        ensures
            choice_views(r@) == self.lectern_of(),
    {
        let page: i32 = self.value(0, 0);
        let mut out: Vec<Choice> = Vec::new();
        out.push(Choice::plain(LECTERN_PREVIOUS, "previous page", page > 0));
        out.push(
            Choice::plain(LECTERN_NEXT, "next page", (page as i64) < self.pages as i64 - 1),
        );
        out.push(Choice::plain(LECTERN_TAKE, "take book", self.may_build));
        proof {
            assert(choice_views(out@) =~= self.lectern_of());
        }
        out
    }

    /// The numbers of a menu's buttons can be counted.
    pub open spec fn countable(&self) -> bool {
        self.stonecutter@.len() <= i32::MAX && self.pattern_ids().len() <= i32::MAX
    }

    /// What the menu lets a player press.
    pub open spec fn choices_of(&self) -> Seq<ChoiceView> {
        match self.menu {
            Menu::Enchantment => self.offers_of(3),
            Menu::Stonecutter => match self.slot_of(0) {
                Some(stack) => self.cuts_of(stack.item, self.stonecutter@.len() as int),
                None => Seq::empty(),
            },
            Menu::Loom => self.loom_of(),
            Menu::Lectern => self.lectern_of(),
            _ => Seq::empty(),
        }
    }

    pub fn choices(&self) -> (r: Vec<Choice>)
        requires
            self.countable(),
        ensures
            choice_views(r@) == self.choices_of(),
    {
        match self.menu {
            Menu::Enchantment => self.enchanting(),
            Menu::Stonecutter => self.stonecutter(),
            Menu::Loom => self.loom(),
            Menu::Lectern => self.lectern(),
            _ => {
                let none: Vec<Choice> = Vec::new();
                proof {
                    assert(choice_views(none@) =~= Seq::empty());
                }
                none
            },
        }
    }

    /// A beacon's effect as its data value holds one: the registry number plus one, and 0 for none.
    pub open spec fn effect_held(&self, value: i32) -> Option<Seq<char>> {
        if 1 <= value && value - 1 < self.effects@.len() {
            Some(self.effects@[value - 1]@)
        } else {
            None
        }
    }

    fn decode_effect(&self, value: i32) -> (r: Option<String>)
        ensures
            text_view(r) == self.effect_held(value),
    {
        if value >= 1 && ((value - 1) as usize) < self.effects.len() {
            Some(self.effects[(value - 1) as usize].clone())
        } else {
            None
        }
    }

    pub open spec fn effect_label_of(&self, effect: Seq<char>) -> Seq<char> {
        self.words_for("effect.minecraft."@ + effect)
    }

    fn effect_label(&self, effect: &str) -> (r: String)
        ensures
            r@ == self.effect_label_of(effect@),
    {
        self.translated(cat2("effect.minecraft.", effect))
    }

    pub open spec fn effect_named_of(&self, effect: Seq<char>) -> Seq<char> {
        self.effect_label_of(effect) + " ["@ + effect + "]"@
    }

    fn effect_named(&self, effect: &str) -> (r: String)
        ensures
            r@ == self.effect_named_of(effect@),
    {
        cat4(self.effect_label(effect).as_str(), " [", effect, "]")
    }

    /// An effect as the beacon's screen offers it.
    pub open spec fn effect_doc(&self, effect: Seq<char>, primary: bool, levels: int, upgrade: bool) -> Doc {
        let current = self.effect_held(
            if primary {
                self.data_of(1)
            } else {
                self.data_of(2)
            },
        );
        Doc::object().with("name"@, Doc::Text(effect)).with(
            "label"@,
            Doc::Text(
                if upgrade {
                    self.effect_label_of(effect) + " II"@
                } else {
                    self.effect_label_of(effect)
                },
            ),
        ).with(
            "slot"@,
            Doc::Text(
                if primary {
                    "primary"@
                } else {
                    "secondary"@
                },
            ),
        ).with("levels"@, Doc::number(levels)).with(
            "available"@,
            Doc::Bool(self.data_of(0) >= levels),
        ).with("selected"@, Doc::Bool(current == Some(effect)))
    }

    fn effect_choice(&self, effect: &str, primary: bool, levels: i32, upgrade: bool) -> (r: Json)
        ensures
            r@ == self.effect_doc(effect@, primary, levels as int, upgrade),
    {
        let current = self.decode_effect(
            self.value(
                if primary {
                    1
                } else {
                    2
                },
                0,
            ),
        );
        let selected: bool = match &current {
            Some(current) => same(current.as_str(), effect),
            None => false,
        };
        let label = if upgrade {
            cat2(self.effect_label(effect).as_str(), " II")
        } else {
            self.effect_label(effect)
        };
        let slot: &str = if primary {
            "primary"
        } else {
            "secondary"
        };
        Json::object().with("name", Json::text(effect)).with("label", Json::Text(label)).with(
            "slot",
            Json::text(slot),
        ).with("levels", Json::number(levels as i64)).with(
            "available",
            Json::Bool(self.value(0, 0) >= levels),
        ).with("selected", Json::Bool(selected))
    }

    /// The buttons in the order the screen lays them out: the primary rows, regeneration, then the
    /// upgrade button, which is the primary again and is only there once a primary is set.
    pub open spec fn beacon_effects_of(&self) -> Seq<Doc> {
        let rows = Seq::new(
            6,
            |i: int|
                self.effect_doc(
                    beacon_effects()[i],
                    levels_of(i) < SECONDARY_LEVELS,
                    levels_of(i),
                    false,
                ),
        );
        match self.effect_held(self.data_of(1)) {
            Some(primary) => rows.push(
                self.effect_doc(primary, false, SECONDARY_LEVELS as int, true),
            ),
            None => rows,
        }
    }

    pub open spec fn beacon_of(&self) -> Doc {
        Doc::object().with("levels"@, Doc::number(self.data_of(0) as int)).with(
            "payment"@,
            match self.slot_of(0) {
                Some(stack) => Doc::Text(stack.name@),
                None => Doc::Null,
            },
        ).with("effects"@, Doc::list(self.beacon_effects_of()))
    }

    fn beacon(&self) -> (r: Json)
        ensures
            r@ == self.beacon_of(),
    {
        let names: [&'static str; 6] = effect_names();
        let mut list: Vec<Json> = Vec::new();
        let mut i: usize = 0;
        while i < 6
            invariant
                i <= 6,
                literals(names@) == beacon_effects(),
                list@.len() == i,
                forall|k: int|
                    0 <= k < i ==> (#[trigger] list@[k])@ == self.effect_doc(
                        beacon_effects()[k],
                        levels_of(k) < SECONDARY_LEVELS,
                        levels_of(k),
                        false,
                    ),
            decreases 6 - i,
        {
            proof {
                assert(literals(names@)[i as int] == names@[i as int]@);
            }
            let levels: i32 = effect_levels(i);
            list.push(self.effect_choice(names[i], levels < SECONDARY_LEVELS, levels, false));
            i += 1;
        }
        match self.decode_effect(self.value(1, 0)) {
            Some(primary) => {
                list.push(self.effect_choice(primary.as_str(), false, SECONDARY_LEVELS, true));
            },
            None => {},
        }
        proof {
            assert(docs(list@) =~= self.beacon_effects_of());
        }
        let payment = if self.slots.len() > 0 {
            match &self.slots[0] {
                Some(stack) => Json::Text(stack.name.clone()),
                None => Json::Null,
            }
        } else {
            Json::Null
        };
        Json::object().with("levels", Json::number(self.value(0, 0) as i64)).with(
            "payment",
            payment,
        ).with("effects", Json::list(list))
    }

    /// What read-container-options answers of the window. A lectern is drawn by the book screen,
    /// which has no title of its own.
    pub open spec fn description(&self) -> Doc {
        let lectern = self.menu == Menu::Lectern;
        let title = if lectern {
            Doc::Text(Seq::empty())
        } else {
            self.title@
        };
        Doc::object().with("title"@, Doc::Text(title.words())).with("titleComponent"@, title).with(
            "type"@,
            Doc::Text(kind_name(self.menu)),
        ).with(
            "options"@,
            Doc::list(
                Seq::new(self.choices_of().len(), |i: int| self.choices_of()[i].doc()),
            ),
        ).with(
            "page"@,
            if lectern {
                Doc::number(self.data_of(0) + 1)
            } else {
                Doc::Null
            },
        ).with(
            "pageCount"@,
            if lectern {
                Doc::number(self.pages as int)
            } else {
                Doc::Null
            },
        ).with(
            "beacon"@,
            if self.menu == Menu::Beacon {
                self.beacon_of()
            } else {
                Doc::Null
            },
        )
    }

    pub fn describe(&self) -> (r: Json)
        requires
            self.countable(),
        ensures
            r@ == self.description(),
    {
        let lectern: bool = self.menu == Menu::Lectern;
        proof {
            reveal_strlit("");
            assert(""@ =~= Seq::empty());
        }
        let title = if lectern {
            Json::text("")
        } else {
            self.title.copy()
        };
        let list = self.choices();
        let mut options: Vec<Json> = Vec::new();
        let mut i: usize = 0;
        proof {
            assert(choice_views(list@).len() == list@.len());
        }
        while i < list.len()
            invariant
                i <= list@.len(),
                choice_views(list@) == self.choices_of(),
                options@.len() == i,
                forall|k: int|
                    0 <= k < i ==> (#[trigger] options@[k])@ == self.choices_of()[k].doc(),
            decreases list@.len() - i,
        {
            proof {
                assert(choice_views(list@)[i as int] == list@[i as int]@);
            }
            options.push(list[i].json());
            i += 1;
        }
        proof {
            assert(docs(options@) =~= Seq::new(
                self.choices_of().len(),
                |i: int| self.choices_of()[i].doc(),
            ));
        }
        let page = if lectern {
            Json::number(self.value(0, 0) as i64 + 1)
        } else {
            Json::Null
        };
        let page_count = if lectern {
            Json::number(self.pages as i64)
        } else {
            Json::Null
        };
        let beacon = if self.menu == Menu::Beacon {
            self.beacon()
        } else {
            Json::Null
        };
        Json::object().with("title", Json::Text(title.words())).with("titleComponent", title).with(
            "type",
            Json::text(kind(self.menu)),
        ).with("options", Json::list(options)).with("page", page).with("pageCount", page_count).with(
            "beacon",
            beacon,
        )
    }
}

/// A beacon's effects in the order its rows have them; the last is the secondary's.
pub open spec fn beacon_effects() -> Seq<Seq<char>> {
    seq!["speed"@, "haste"@, "resistance"@, "jump_boost"@, "strength"@, "regeneration"@]
}

/// The pyramid level an effect of the beacon needs, by its place.
pub open spec fn levels_of(i: int) -> int {
    if i < 2 {
        1
    } else if i < 4 {
        2
    } else if i == 4 {
        3
    } else {
        4
    }
}

fn effect_names() -> (r: [&'static str; 6])
    ensures
        literals(r@) == beacon_effects(),
{
    let names: [&'static str; 6] = [
        "speed",
        "haste",
        "resistance",
        "jump_boost",
        "strength",
        "regeneration",
    ];
    proof {
        assert(literals(names@) =~= beacon_effects());
    }
    names
}

fn effect_levels(i: usize) -> (r: i32)
    ensures
        r == levels_of(i as int),
{
    if i < 2 {
        1
    } else if i < 4 {
        2
    } else if i == 4 {
        3
    } else {
        4
    }
}

/// The spoken names of a list of choices.
pub open spec fn spoken_list(choices: Seq<ChoiceView>) -> Seq<Seq<char>> {
    Seq::new(choices.len(), |i: int| choices[i].spoken_of())
}

fn list(choices: &Vec<Choice>) -> (r: String)
    ensures
        r@ == joined(spoken_list(choice_views(choices@)), ", "@),
{
    let mut out: Vec<String> = Vec::new();
    let mut i: usize = 0;
    while i < choices.len()
        invariant
            i <= choices@.len(),
            out@.len() == i,
            forall|k: int| 0 <= k < i ==> (#[trigger] out@[k])@ == choices@[k]@.spoken_of(),
        decreases choices@.len() - i,
    {
        out.push(choices[i].spoken());
        i += 1;
    }
    proof {
        assert(texts(out@) =~= spoken_list(choice_views(choices@)));
    }
    join(&out, ", ")
}

/// What a menu offers, in the words of a refusal.
pub open spec fn offers_words(choices: Seq<ChoiceView>, menu: Menu, pages: i32) -> Seq<char> {
    match menu {
        Menu::Lectern => "it offers "@ + joined(spoken_list(choices), ", "@)
            + ", and \"page 1\" to \"page "@ + dec(pages as int) + "\""@,
        Menu::CartographyTable => "a cartography table has nothing to press: its result appears in slot 2 once both inputs are in, and click-slot takes it"@,
        _ => if choices.len() == 0 {
            "it offers nothing to press right now"@
        } else {
            "it offers "@ + joined(spoken_list(choices), ", "@)
        },
    }
}

fn offers(choices: &Vec<Choice>, reading: &Reading) -> (r: String)
    ensures
        r@ == offers_words(choice_views(choices@), reading.menu, reading.pages),
{
    proof {
        assert(choice_views(choices@).len() == choices@.len());
    }
    match reading.menu {
        Menu::Lectern => cat5(
            "it offers ",
            list(choices).as_str(),
            ", and \"page 1\" to \"page ",
            signed(reading.pages as i64).as_str(),
            "\"",
        ),
        Menu::CartographyTable => "a cartography table has nothing to press: its result appears in slot 2 once both inputs are in, and click-slot takes it".to_owned(),
        _ => if choices.len() == 0 {
            "it offers nothing to press right now".to_owned()
        } else {
            cat2("it offers ", list(choices).as_str())
        },
    }
}

/// The first choice from a place on that is called that.
pub open spec fn exact_choice(choices: Seq<ChoiceView>, lowered: Seq<char>, from: int) -> Option<int>
    decreases choices.len() - from,
{
    if from < 0 || from >= choices.len() {
        None
    } else if choices[from].is_called(lowered) {
        Some(from)
    } else {
        exact_choice(choices, lowered, from + 1)
    }
}

/// The first `n` choices that sound like that, by their places.
pub open spec fn partial_choices(choices: Seq<ChoiceView>, lowered: Seq<char>, n: int) -> Seq<int>
    decreases n,
{
    if n <= 0 {
        Seq::empty()
    } else if choices[n - 1].sounds_like(lowered) {
        partial_choices(choices, lowered, n - 1).push(n - 1)
    } else {
        partial_choices(choices, lowered, n - 1)
    }
}

/// The choice that is meant: exact before partial, and a partial that fits more than one is refused.
pub open spec fn picked_choice(
    choices: Seq<ChoiceView>,
    wanted: Seq<char>,
    menu: Menu,
    pages: i32,
) -> Result<int, FailureView> {
    let lowered = lowercase_of(trimmed(wanted));
    match exact_choice(choices, lowered, 0) {
        Some(i) => Ok(i),
        None => {
            let partial = partial_choices(choices, lowered, choices.len() as int);
            if partial.len() == 1 {
                Ok(partial[0])
            } else if partial.len() == 0 {
                Err(
                    FailureView::refusal(
                        "NO_SUCH_OPTION"@,
                        "no option matching \""@ + wanted + "\" on "@ + kind_name(menu) + "; "@
                            + offers_words(choices, menu, pages),
                    ),
                )
            } else {
                Err(
                    FailureView::refusal(
                        "AMBIGUOUS_OPTION"@,
                        "\""@ + wanted + "\" matches "@ + joined(
                            Seq::new(
                                partial.len(),
                                |i: int| choices[partial[i]].spoken_of(),
                            ),
                            ", "@,
                        ) + " on "@ + kind_name(menu) + "; name one of them"@,
                    ),
                )
            }
        },
    }
}

/// Exact before partial, and a partial that matches more than one is refused. "Sharpness" is part
/// of both "Sharpness I" and "Sharpness III", and taking the first spends the levels on whichever the
/// table happened to list first.
pub fn pick(choices: &Vec<Choice>, wanted: &str, reading: &Reading) -> (r: Result<usize, Failure>)
    ensures
        ({
            let want = picked_choice(
                choice_views(choices@),
                wanted@,
                reading.menu,
                reading.pages,
            );
            match r {
                Ok(i) => want == Ok::<int, FailureView>(i as int) && i < choices@.len(),
                Err(failure) => want == Err::<int, FailureView>(failure@),
            }
        }),
{
    let lowered = lowercase(trim(wanted).as_str());
    let ghost all = choice_views(choices@);
    let mut i: usize = 0;
    while i < choices.len()
        invariant
            i <= choices@.len(),
            all == choice_views(choices@),
            lowered@ == lowercase_of(trimmed(wanted@)),
            exact_choice(all, lowered@, 0) == exact_choice(all, lowered@, i as int),
        decreases choices@.len() - i,
    {
        proof {
            assert(all[i as int] == choices@[i as int]@);
        }
        if choices[i].called(lowered.as_str()) {
            return Ok(i);
        }
        i += 1;
    }
    let mut partial: Vec<usize> = Vec::new();
    let mut spoken: Vec<String> = Vec::new();
    let mut j: usize = 0;
    proof {
        assert(crate::hud::ints(partial@) =~= partial_choices(all, lowered@, 0));
    }
    while j < choices.len()
        invariant
            j <= choices@.len(),
            all == choice_views(choices@),
            lowered@ == lowercase_of(trimmed(wanted@)),
            exact_choice(all, lowered@, 0) is None,
            crate::hud::ints(partial@) == partial_choices(all, lowered@, j as int),
            spoken@.len() == partial@.len(),
            forall|k: int|
                0 <= k < partial@.len() ==> (#[trigger] partial@[k]) < choices@.len()
                    && spoken@[k]@ == all[partial@[k] as int].spoken_of(),
        decreases choices@.len() - j,
    {
        proof {
            assert(all[j as int] == choices@[j as int]@);
        }
        if choices[j].alike(lowered.as_str()) {
            let ghost before = partial@;
            partial.push(j);
            spoken.push(choices[j].spoken());
            proof {
                assert(crate::hud::ints(partial@) =~= crate::hud::ints(before).push(j as int));
            }
        }
        j += 1;
    }
    proof {
        assert(crate::hud::ints(partial@).len() == partial@.len());
        let views = crate::hud::ints(partial@);
        assert(texts(spoken@) =~= Seq::new(views.len(), |i: int| all[views[i]].spoken_of())) by {
            assert forall|k: int| 0 <= k < spoken@.len() implies spoken@[k]@
                == all[views[k]].spoken_of() by {
                assert(views[k] == partial@[k] as int);
            }
        }
    }
    if partial.len() == 1 {
        proof {
            assert(crate::hud::ints(partial@)[0] == partial@[0] as int);
        }
        return Ok(partial[0]);
    }
    if partial.len() == 0 {
        return Err(
            Failure::refused(
                "NO_SUCH_OPTION",
                cat6(
                    "no option matching \"",
                    wanted,
                    "\" on ",
                    kind(reading.menu),
                    "; ",
                    offers(choices, reading).as_str(),
                ),
            ),
        );
    }
    Err(
        Failure::refused(
            "AMBIGUOUS_OPTION",
            cat7(
                "\"",
                wanted,
                "\" matches ",
                join(&spoken, ", ").as_str(),
                " on ",
                kind(reading.menu),
                "; name one of them",
            ),
        ),
    )
}

/// Why a choice cannot be pressed.
pub open spec fn why_of(choice: ChoiceView, reading: Reading) -> Seq<char> {
    match (choice.levels, choice.lapis) {
        (Some(levels), Some(lapis)) => if reading.slot_of(0) is None {
            ": there is nothing on the table to enchant"@
        } else {
            ": it costs "@ + dec(levels as int) + " levels and "@ + dec(lapis as int)
                + " lapis, and the bot has "@ + dec(reading.level as int) + " levels and "@ + dec(
                reading.count_of(1) as int,
            ) + " lapis"@
        },
        _ => if reading.menu == Menu::Lectern {
            if choice.button == LECTERN_TAKE {
                ": the bot may not build here"@
            } else {
                ": the book is already at that end"@
            }
        } else {
            Seq::empty()
        },
    }
}

fn why(choice: &Choice, reading: &Reading) -> (r: String)
    ensures
        r@ == why_of(choice@, *reading),
{
    match (choice.levels, choice.lapis) {
        (Some(levels), Some(lapis)) => {
            if reading.slot_empty(0) {
                return ": there is nothing on the table to enchant".to_owned();
            }
            let mut out = cat7(
                ": it costs ",
                signed(levels as i64).as_str(),
                " levels and ",
                signed(lapis as i64).as_str(),
                " lapis, and the bot has ",
                signed(reading.level as i64).as_str(),
                " levels and ",
            );
            out.append(signed(reading.slot_count(1) as i64).as_str());
            out.append(" lapis");
            out
        },
        _ => {
            if reading.menu == Menu::Lectern {
                if choice.button == LECTERN_TAKE {
                    ": the bot may not build here".to_owned()
                } else {
                    ": the book is already at that end".to_owned()
                }
            } else {
                proof {
                    reveal_strlit("");
                    assert(""@ =~= Seq::empty());
                }
                "".to_owned()
            }
        },
    }
}

/// What a caller types to turn a lectern to a page.
pub const PAGE: &'static str = r"(?i)^page\s+(\d+)$";

/// The number of a page that is asked for, where it can be counted to.
pub open spec fn page_number(digits: Seq<char>) -> int {
    match integer_value(digits) {
        Some(n) => if i32::MIN <= n <= i32::MAX {
            n
        } else {
            i32::MAX as int
        },
        None => i32::MAX as int,
    }
}

/// What turning a lectern to a page comes to: the button to press, where one is, and what is said.
pub open spec fn turning_of(digits: Seq<char>, pages: i32, open_at: i32, menu: Menu) -> Result<
    (Option<int>, Seq<char>),
    FailureView,
> {
    let page = page_number(digits);
    if page < 1 || page > pages {
        Err(
            FailureView::refusal(
                "NO_SUCH_PAGE"@,
                "the book on this lectern has pages 1-"@ + dec(pages as int) + ", and no page "@
                    + dec(page),
            ),
        )
    } else if page == open_at + 1 {
        Ok((None, "The lectern is already open at page "@ + dec(page) + "."@))
    } else {
        let button = LECTERN_JUMP + page - 1;
        Ok(
            (
                Some(button),
                "Pressed \"page "@ + dec(page) + "\" (button "@ + dec(button) + ") on "@
                    + kind_name(menu) + "."@,
            ),
        )
    }
}

/// Turn a lectern to the page some digits name.
pub fn turn_to(digits: &str, pages: i32, open_at: i32, menu: Menu) -> (r: Result<
    (Option<i64>, String),
    Failure,
>)
    ensures
        match r {
            Ok((button, text)) => turning_of(digits@, pages, open_at, menu) == Ok::<
                (Option<int>, Seq<char>),
                FailureView,
            >(
                (
                    match button {
                        Some(button) => Some(button as int),
                        None => None,
                    },
                    text@,
                ),
            ),
            Err(failure) => turning_of(digits@, pages, open_at, menu) == Err::<
                (Option<int>, Seq<char>),
                FailureView,
            >(failure@),
        },
{
    let page: i64 = match parse_i64(digits) {
        Some(n) => if n >= i32::MIN as i64 && n <= i32::MAX as i64 {
            n
        } else {
            i32::MAX as i64
        },
        None => i32::MAX as i64,
    };
    if page < 1 || page > pages as i64 {
        return Err(
            Failure::refused(
                "NO_SUCH_PAGE",
                cat4(
                    "the book on this lectern has pages 1-",
                    signed(pages as i64).as_str(),
                    ", and no page ",
                    signed(page).as_str(),
                ),
            ),
        );
    }
    if page == open_at as i64 + 1 {
        return Ok(
            (
                None,
                cat3("The lectern is already open at page ", signed(page).as_str(), "."),
            ),
        );
    }
    let button: i64 = LECTERN_JUMP as i64 + page - 1;
    Ok(
        (
            Some(button),
            cat7(
                "Pressed \"page ",
                signed(page).as_str(),
                "\" (button ",
                signed(button).as_str(),
                ") on ",
                kind(menu),
                ".",
            ),
        ),
    )
}

/// What pressing the choice that is meant comes to.
pub open spec fn choosing_of(reading: Reading, option: Seq<char>) -> Result<
    (Option<int>, Seq<char>),
    FailureView,
> {
    let choices = reading.choices_of();
    match picked_choice(choices, option, reading.menu, reading.pages) {
        Err(failure) => Err(failure),
        Ok(i) => {
            let chosen = choices[i];
            if chosen.selected {
                Ok(
                    (
                        None,
                        chosen.spoken_of() + " is already selected on "@ + kind_name(reading.menu)
                            + "."@,
                    ),
                )
            } else if !chosen.available {
                Err(
                    FailureView::refusal(
                        "OPTION_UNAVAILABLE"@,
                        chosen.spoken_of() + " cannot be pressed"@ + why_of(chosen, reading) + "."@,
                    ),
                )
            } else {
                Ok(
                    (
                        Some(chosen.button),
                        "Pressed "@ + chosen.spoken_of() + " (button "@ + dec(chosen.button)
                            + ") on "@ + kind_name(reading.menu) + "."@,
                    ),
                )
            }
        },
    }
}

/// Press the choice of a menu that is meant.
pub fn choose_option(reading: &Reading, option: &str) -> (r: Result<(Option<i64>, String), Failure>)
    requires
        reading.countable(),
    ensures
        match r {
            Ok((button, text)) => choosing_of(*reading, option@) == Ok::<
                (Option<int>, Seq<char>),
                FailureView,
            >(
                (
                    match button {
                        Some(button) => Some(button as int),
                        None => None,
                    },
                    text@,
                ),
            ),
            Err(failure) => choosing_of(*reading, option@) == Err::<
                (Option<int>, Seq<char>),
                FailureView,
            >(failure@),
        },
{
    let choices = reading.choices();
    let at: usize = match pick(&choices, option, reading) {
        Ok(at) => at,
        Err(failure) => {
            return Err(failure);
        },
    };
    proof {
        assert(choice_views(choices@)[at as int] == choices@[at as int]@);
    }
    let chosen = &choices[at];
    if chosen.selected {
        return Ok(
            (
                None,
                cat4(
                    chosen.spoken().as_str(),
                    " is already selected on ",
                    kind(reading.menu),
                    ".",
                ),
            ),
        );
    }
    if !chosen.available {
        return Err(
            Failure::refused(
                "OPTION_UNAVAILABLE",
                cat4(
                    chosen.spoken().as_str(),
                    " cannot be pressed",
                    why(chosen, reading).as_str(),
                    ".",
                ),
            ),
        );
    }
    Ok(
        (
            Some(chosen.button as i64),
            cat7(
                "Pressed ",
                chosen.spoken().as_str(),
                " (button ",
                signed(chosen.button as i64).as_str(),
                ") on ",
                kind(reading.menu),
                ".",
            ),
        ),
    )
}

/// What pressing a menu comes to: the button that was given, or the option that is meant.
pub open spec fn press_of(reading: Reading, option: Option<Seq<char>>, button: i64) -> Result<
    (Option<int>, Seq<char>),
    FailureView,
> {
    match option {
        None => Ok(
            (
                Some(button as int),
                "Pressed button "@ + dec(button as int) + " on "@ + kind_name(reading.menu) + "."@,
            ),
        ),
        Some(option) => {
            let page = expression_group(PAGE@, trimmed(option));
            if reading.menu == Menu::Lectern && page is Some {
                turning_of(page.unwrap(), reading.pages, reading.data_of(0), reading.menu)
            } else {
                choosing_of(reading, option)
            }
        },
    }
}

/// Press a button of a menu: by its number, by a lectern's page, or by the option that is meant. The
/// number to send, where something is to be sent, and what is said.
pub fn press(reading: &Reading, option: Option<&str>, button: i64) -> (r: Result<
    (Option<i64>, String),
    Failure,
>)
    requires
        reading.countable(),
    ensures
        ({
            let want = press_of(
                *reading,
                match option {
                    Some(option) => Some(option@),
                    None => None,
                },
                button,
            );
            match r {
                Ok((button, text)) => want == Ok::<(Option<int>, Seq<char>), FailureView>(
                    (
                        match button {
                            Some(button) => Some(button as int),
                            None => None,
                        },
                        text@,
                    ),
                ),
                Err(failure) => want == Err::<(Option<int>, Seq<char>), FailureView>(failure@),
            }
        }),
{
    match option {
        None => Ok(
            (
                Some(button),
                cat5(
                    "Pressed button ",
                    signed(button).as_str(),
                    " on ",
                    kind(reading.menu),
                    ".",
                ),
            ),
        ),
        Some(option) => {
            if reading.menu == Menu::Lectern {
                match group(PAGE, trim(option).as_str()) {
                    Some(digits) => {
                        return turn_to(
                            digits.as_str(),
                            reading.pages,
                            reading.value(0, 0),
                            reading.menu,
                        );
                    },
                    None => {},
                }
            }
            choose_option(reading, option)
        },
    }
}

/// What press-container-button's arguments say: an option by name, or a button by number, and not
/// both.
pub open spec fn press_args_of(args: Doc) -> Result<(Option<Seq<char>>, i64), FailureView> {
    let option = match given(args, "option"@) {
        Doc::Null => Ok(None),
        _ => match text_of(args, "option"@) {
            Ok(text) => Ok(Some(text)),
            Err(failure) => Err(failure),
        },
    };
    match option {
        Err(failure) => Err(failure),
        Ok(option) => match integer_of(args, "button"@, (-1) as i64) {
            Err(failure) => Err(failure),
            Ok(button) => if (option is None) == (button < 0) {
                Err(
                    FailureView::misuse("give either option, by name, or button, by number"@),
                )
            } else {
                Ok((option, button))
            },
        },
    }
}

pub fn press_args(args: &Json) -> (r: Result<(Option<String>, i64), Failure>)
    ensures
        match r {
            Ok((option, button)) => press_args_of(args@) == Ok::<
                (Option<Seq<char>>, i64),
                FailureView,
            >((text_view(option), button)),
            Err(failure) => press_args_of(args@) == Err::<
                (Option<Seq<char>>, i64),
                FailureView,
            >(failure@),
        },
{
    let option: Option<String> = match args.get("option") {
        None => None,
        Some(Json::Null) => None,
        Some(_) => match text(args, "option") {
            Ok(text) => Some(text.to_owned()),
            Err(failure) => {
                return Err(failure);
            },
        },
    };
    let button: i64 = match integer(args, "button", -1) {
        Ok(n) => n,
        Err(failure) => {
            return Err(failure);
        },
    };
    if option.is_none() == (button < 0) {
        return Err(
            Failure::bad_args("give either option, by name, or button, by number".to_owned()),
        );
    }
    Ok((option, button))
}

/// What read-container-options answers: the menu described, or nothing where none is open.
pub fn container_options(described: Option<Json>) -> (r: Answer)
    ensures
        r@ == AnswerView::full(
            "read-container-options"@,
            Doc::object().with(
                "window"@,
                match described {
                    Some(described) => described@,
                    None => Doc::Null,
                },
            ),
        ),
{
    let window = match described {
        Some(described) => described,
        None => Json::Null,
    };
    Answer::data("read-container-options".to_owned(), Json::object().with("window", window))
}

/// The effects a beacon is asked for: a primary, and a secondary where one is given.
pub open spec fn beacon_args_of(args: Doc) -> Result<(Seq<char>, Option<Seq<char>>), FailureView> {
    match text_of(args, "primary"@) {
        Err(failure) => Err(failure),
        Ok(primary) => match given(args, "secondary"@) {
            Doc::Null => Ok((primary, None)),
            _ => match text_of(args, "secondary"@) {
                Ok(secondary) => Ok((primary, Some(secondary))),
                Err(failure) => Err(failure),
            },
        },
    }
}

pub fn beacon_args(args: &Json) -> (r: Result<(String, Option<String>), Failure>)
    ensures
        match r {
            Ok((primary, secondary)) => beacon_args_of(args@) == Ok::<
                (Seq<char>, Option<Seq<char>>),
                FailureView,
            >((primary@, text_view(secondary))),
            Err(failure) => beacon_args_of(args@) == Err::<
                (Seq<char>, Option<Seq<char>>),
                FailureView,
            >(failure@),
        },
{
    let primary: String = match text(args, "primary") {
        Ok(primary) => primary.to_owned(),
        Err(failure) => {
            return Err(failure);
        },
    };
    match args.get("secondary") {
        None => Ok((primary, None)),
        Some(Json::Null) => Ok((primary, None)),
        Some(_) => match text(args, "secondary") {
            Ok(secondary) => Ok((primary, Some(secondary.to_owned()))),
            Err(failure) => Err(failure),
        },
    }
}

/// What is said when no menu is open to press anything on.
pub fn no_window() -> (r: Failure)
    ensures
        r@ == FailureView::refusal(
            "NO_WINDOW"@,
            "No window is open. Run the command that opens the menu first, then use wait-for-window before pressing anything on it."@,
        ),
{
    Failure::refused(
        "NO_WINDOW",
        "No window is open. Run the command that opens the menu first, then use wait-for-window before pressing anything on it.".to_owned(),
    )
}

/// The place of the first effect, from one on, that a caller means: by its id, or by the name the
/// screen shows.
pub open spec fn effect_meant(reading: Reading, wanted: Seq<char>, from: int) -> Option<int>
    decreases 6 - from,
{
    if from < 0 || from >= 6 {
        None
    } else if beacon_effects()[from] == needle_of(wanted) || same_but_case(
        reading.effect_label_of(beacon_effects()[from]),
        trimmed(wanted),
    ) {
        Some(from)
    } else {
        effect_meant(reading, wanted, from + 1)
    }
}

/// What is said of an effect a beacon does not give.
pub open spec fn no_such_effect(wanted: Seq<char>) -> FailureView {
    FailureView::refusal(
        "NO_SUCH_EFFECT"@,
        "a beacon gives none called \""@ + wanted + "\"; it gives "@ + joined(
            beacon_effects(),
            ", "@,
        ),
    )
}

fn owned_names(names: &[&'static str; 6], count: usize) -> (r: Vec<String>)
    requires
        count <= 6,
    ensures
        texts(r@) == literals(names@).take(count as int),
{
    let mut out: Vec<String> = Vec::new();
    let mut i: usize = 0;
    while i < count
        invariant
            i <= count <= 6,
            out@.len() == i,
            forall|k: int| 0 <= k < i ==> (#[trigger] out@[k])@ == names@[k]@,
        decreases count - i,
    {
        out.push(names[i].to_owned());
        i += 1;
    }
    proof {
        assert(texts(out@) =~= literals(names@).take(count as int));
    }
    out
}

/// An effect a beacon gives, by id or by the name the screen shows. Anything else is refused here,
/// because the server would store it as no effect at all and say nothing.
pub fn effect(reading: &Reading, wanted: &str) -> (r: Result<usize, Failure>)
    ensures
        match r {
            Ok(i) => effect_meant(*reading, wanted@, 0) == Some(i as int) && i < 6,
            Err(failure) => effect_meant(*reading, wanted@, 0) is None && failure@
                == no_such_effect(wanted@),
        },
{
    let names = effect_names();
    let needle = needle(wanted);
    let bare = trim(wanted);
    let mut i: usize = 0;
    while i < 6
        invariant
            i <= 6,
            literals(names@) == beacon_effects(),
            needle@ == needle_of(wanted@),
            bare@ == trimmed(wanted@),
            effect_meant(*reading, wanted@, 0) == effect_meant(*reading, wanted@, i as int),
        decreases 6 - i,
    {
        proof {
            assert(literals(names@)[i as int] == names@[i as int]@);
        }
        if same(names[i], needle.as_str()) || equals_ignoring_case(
            reading.effect_label(names[i]).as_str(),
            bare.as_str(),
        ) {
            return Ok(i);
        }
        i += 1;
    }
    let all = owned_names(&names, 6);
    proof {
        assert(literals(names@).take(6) =~= beacon_effects());
    }
    Err(
        Failure::refused(
            "NO_SUCH_EFFECT",
            cat4(
                "a beacon gives none called \"",
                wanted,
                "\"; it gives ",
                join(&all, ", ").as_str(),
            ),
        ),
    )
}

pub open spec fn counted(levels: int) -> Seq<char> {
    dec(levels) + " "@ + if levels == 1 {
        "level"@
    } else {
        "levels"@
    }
}

pub open spec fn pyramid(levels: int) -> Seq<char> {
    if levels == 0 {
        "has none under it"@
    } else {
        "has "@ + counted(levels)
    }
}

fn count_levels(levels: i32) -> (r: String)
    ensures
        r@ == counted(levels as int),
{
    let mut out = cat2(signed(levels as i64).as_str(), " ");
    out.append(
        if levels == 1 {
            "level"
        } else {
            "levels"
        },
    );
    out
}

fn describe_pyramid(levels: i32) -> (r: String)
    ensures
        r@ == pyramid(levels as int),
{
    if levels == 0 {
        "has none under it".to_owned()
    } else {
        cat2("has ", count_levels(levels).as_str())
    }
}

/// Why the confirm button could not have sent a pair of effects, where it could not.
pub open spec fn check_of(reading: Reading, primary: int, secondary: Option<int>) -> Option<
    FailureView,
> {
    let levels = reading.data_of(0);
    let first = reading.effect_named_of(beacon_effects()[primary]);
    if levels_of(primary) >= SECONDARY_LEVELS {
        Some(
            FailureView::refusal(
                "EFFECT_UNAVAILABLE"@,
                first + " is only ever a secondary effect; the primary is one of "@ + joined(
                    beacon_effects().take(5),
                    ", "@,
                ),
            ),
        )
    } else if levels_of(primary) > levels {
        Some(
            FailureView::refusal(
                "EFFECT_UNAVAILABLE"@,
                first + " needs a pyramid of "@ + counted(levels_of(primary))
                    + ", and this beacon's "@ + pyramid(levels as int),
            ),
        )
    } else if secondary is Some && levels < SECONDARY_LEVELS {
        Some(
            FailureView::refusal(
                "EFFECT_UNAVAILABLE"@,
                "a secondary effect needs a pyramid of "@ + counted(SECONDARY_LEVELS as int)
                    + ", and this beacon's "@ + pyramid(levels as int) + "; leave secondary out"@,
            ),
        )
    } else if secondary matches Some(second) && levels_of(second) < SECONDARY_LEVELS && second
        != primary {
        Some(
            FailureView::refusal(
                "EFFECT_UNAVAILABLE"@,
                "the secondary effect is regeneration or the primary again, which makes "@ + first
                    + " level II; "@ + reading.effect_named_of(beacon_effects()[secondary.unwrap()])
                    + " is neither"@,
            ),
        )
    } else if reading.slot_of(0) is None {
        Some(
            FailureView::refusal(
                "NO_PAYMENT"@,
                "the beacon takes one iron ingot, gold ingot, emerald, diamond or netherite ingot for every change, and its payment slot (slot 0) is empty; put one there with click-slot first"@,
            ),
        )
    } else {
        None
    }
}

/// Refuses, with the reason, the pair the confirm button could not have sent.
pub fn check(reading: &Reading, primary: usize, secondary: Option<usize>) -> (r: Result<(), Failure>)
    requires
        primary < 6,
        secondary matches Some(second) ==> second < 6,
    ensures
        ({
            let want = check_of(
                *reading,
                primary as int,
                match secondary {
                    Some(second) => Some(second as int),
                    None => None,
                },
            );
            match r {
                Ok(()) => want is None,
                Err(failure) => want == Some(failure@),
            }
        }),
{
    let names = effect_names();
    let levels: i32 = reading.value(0, 0);
    proof {
        assert(literals(names@)[primary as int] == names@[primary as int]@);
    }
    let first = reading.effect_named(names[primary]);
    if effect_levels(primary) >= SECONDARY_LEVELS {
        let primaries = owned_names(&names, 5);
        return Err(
            Failure::refused(
                "EFFECT_UNAVAILABLE",
                cat3(
                    first.as_str(),
                    " is only ever a secondary effect; the primary is one of ",
                    join(&primaries, ", ").as_str(),
                ),
            ),
        );
    }
    if effect_levels(primary) > levels {
        return Err(
            Failure::refused(
                "EFFECT_UNAVAILABLE",
                cat5(
                    first.as_str(),
                    " needs a pyramid of ",
                    count_levels(effect_levels(primary)).as_str(),
                    ", and this beacon's ",
                    describe_pyramid(levels).as_str(),
                ),
            ),
        );
    }
    match secondary {
        Some(second) => {
            if levels < SECONDARY_LEVELS {
                return Err(
                    Failure::refused(
                        "EFFECT_UNAVAILABLE",
                        cat5(
                            "a secondary effect needs a pyramid of ",
                            count_levels(SECONDARY_LEVELS).as_str(),
                            ", and this beacon's ",
                            describe_pyramid(levels).as_str(),
                            "; leave secondary out",
                        ),
                    ),
                );
            }
            if effect_levels(second) < SECONDARY_LEVELS && second != primary {
                proof {
                    assert(literals(names@)[second as int] == names@[second as int]@);
                }
                return Err(
                    Failure::refused(
                        "EFFECT_UNAVAILABLE",
                        cat5(
                            "the secondary effect is regeneration or the primary again, which makes ",
                            first.as_str(),
                            " level II; ",
                            reading.effect_named(names[second]).as_str(),
                            " is neither",
                        ),
                    ),
                );
            }
        },
        None => {},
    }
    if reading.slot_empty(0) {
        return Err(
            Failure::refused(
                "NO_PAYMENT",
                "the beacon takes one iron ingot, gold ingot, emerald, diamond or netherite ingot for every change, and its payment slot (slot 0) is empty; put one there with click-slot first".to_owned(),
            ),
        );
    }
    Ok(())
}

/// A beacon gives its primary effect only where the pyramid has the levels for it, and a second one
/// only over a full pyramid.
pub proof fn a_beacon_gives_what_its_pyramid_allows(
    reading: Reading,
    primary: int,
    secondary: Option<int>,
)
    requires
        0 <= primary < 6,
        secondary matches Some(second) ==> 0 <= second < 6,
        check_of(reading, primary, secondary) is None,
    ensures
        levels_of(primary) <= reading.data_of(0),
        primary != 5,
        secondary matches Some(second) ==> reading.data_of(0) >= 4 && (second == 5 || second
            == primary),
        reading.slot_of(0) is Some,
{
}

/// What is said of effects that were set.
pub open spec fn set_of(reading: Reading, primary: int, secondary: Option<int>) -> Seq<char> {
    "Set the beacon's primary effect to "@ + reading.effect_named_of(beacon_effects()[primary])
        + (match secondary {
        None => " with no secondary effect"@,
        Some(second) => if second == primary {
            " at level II"@
        } else {
            " and its secondary effect to "@ + reading.effect_named_of(beacon_effects()[second])
        },
    }) + ", paying one "@ + (match reading.slot_of(0) {
        Some(stack) => stack.name@,
        None => Seq::empty(),
    }) + ". The window is closed, as the beacon's confirm button closes it."@
}

/// What setting a beacon comes to: the effects to send, and what is said.
pub open spec fn beacon_set_of(reading: Reading, primary: Seq<char>, secondary: Option<Seq<char>>) -> Result<
    (int, Option<int>, Seq<char>),
    FailureView,
> {
    if reading.menu != Menu::Beacon {
        Err(
            FailureView::refusal(
                "NOT_A_BEACON"@,
                "the open window is "@ + kind_name(reading.menu) + ", not a beacon"@,
            ),
        )
    } else {
        match effect_meant(reading, primary, 0) {
            None => Err(no_such_effect(primary)),
            Some(first) => {
                let second = match secondary {
                    None => None,
                    Some(name) => effect_meant(reading, name, 0),
                };
                if secondary is Some && second is None {
                    Err(no_such_effect(secondary.unwrap()))
                } else {
                    match check_of(reading, first, second) {
                        Some(failure) => Err(failure),
                        None => Ok((first, second, set_of(reading, first, second))),
                    }
                }
            },
        }
    }
}

/// Choose a beacon's effects and confirm them, as the confirm button does: both effects in one
/// packet, and the window closed in the same press. Left open, the window would describe the effects
/// from before until the server's data came back, and a second set from it would pay a second time.
pub fn set_beacon(reading: &Reading, primary: &str, secondary: Option<&str>) -> (r: Result<
    (usize, Option<usize>, String),
    Failure,
>)
    ensures
        ({
            let want = beacon_set_of(
                *reading,
                primary@,
                match secondary {
                    Some(name) => Some(name@),
                    None => None,
                },
            );
            match r {
                Ok((first, second, text)) => want == Ok::<
                    (int, Option<int>, Seq<char>),
                    FailureView,
                >(
                    (
                        first as int,
                        match second {
                            Some(second) => Some(second as int),
                            None => None,
                        },
                        text@,
                    ),
                ),
                Err(failure) => want == Err::<(int, Option<int>, Seq<char>), FailureView>(failure@),
            }
        }),
{
    if reading.menu != Menu::Beacon {
        return Err(
            Failure::refused(
                "NOT_A_BEACON",
                cat3("the open window is ", kind(reading.menu), ", not a beacon"),
            ),
        );
    }
    let first: usize = match effect(reading, primary) {
        Ok(first) => first,
        Err(failure) => {
            return Err(failure);
        },
    };
    let second: Option<usize> = match secondary {
        None => None,
        Some(name) => match effect(reading, name) {
            Ok(second) => Some(second),
            Err(failure) => {
                return Err(failure);
            },
        },
    };
    match check(reading, first, second) {
        Ok(()) => {},
        Err(failure) => {
            return Err(failure);
        },
    }
    let names = effect_names();
    proof {
        assert(literals(names@)[first as int] == names@[first as int]@);
    }
    let more: String = match second {
        None => " with no secondary effect".to_owned(),
        Some(second) => {
            proof {
                assert(literals(names@)[second as int] == names@[second as int]@);
            }
            if second == first {
                " at level II".to_owned()
            } else {
                cat2(
                    " and its secondary effect to ",
                    reading.effect_named(names[second]).as_str(),
                )
            }
        },
    };
    proof {
        reveal_strlit("");
        assert(""@ =~= Seq::empty());
    }
    let payment: String = if reading.slots.len() > 0 {
        match &reading.slots[0] {
            Some(stack) => stack.name.clone(),
            None => "".to_owned(),
        }
    } else {
        "".to_owned()
    };
    let text = cat6(
        "Set the beacon's primary effect to ",
        reading.effect_named(names[first]).as_str(),
        more.as_str(),
        ", paying one ",
        payment.as_str(),
        ". The window is closed, as the beacon's confirm button closes it.",
    );
    Ok((first, second, text))
}

proof fn among_partial(choices: Seq<ChoiceView>, lowered: Seq<char>, n: int, at: int)
    requires
        0 <= at < n <= choices.len(),
        choices[at].sounds_like(lowered),
    ensures
        partial_choices(choices, lowered, n).contains(at),
    decreases n,
{
    let all = partial_choices(choices, lowered, n);
    let before = partial_choices(choices, lowered, n - 1);
    if at < n - 1 {
        among_partial(choices, lowered, n - 1, at);
        let i = choose|i: int| 0 <= i < before.len() && before[i] == at;
        assert(all[i] == at);
    } else {
        assert(all[all.len() - 1] == at);
    }
}

/// A part of two choices' names picks neither of them: taking the first would spend the levels on
/// whichever the table happened to list first.
pub proof fn a_part_of_two_names_picks_neither(
    choices: Seq<ChoiceView>,
    wanted: Seq<char>,
    menu: Menu,
    pages: i32,
    one: int,
    other: int,
)
    requires
        0 <= one < choices.len(),
        0 <= other < choices.len(),
        one != other,
        exact_choice(choices, lowercase_of(trimmed(wanted)), 0) is None,
        choices[one].sounds_like(lowercase_of(trimmed(wanted))),
        choices[other].sounds_like(lowercase_of(trimmed(wanted))),
    ensures
        picked_choice(choices, wanted, menu, pages) is Err,
        picked_choice(choices, wanted, menu, pages)->Err_0.code == "AMBIGUOUS_OPTION"@,
{
    let lowered = lowercase_of(trimmed(wanted));
    let n = choices.len() as int;
    let partial = partial_choices(choices, lowered, n);
    among_partial(choices, lowered, n, one);
    among_partial(choices, lowered, n, other);
    let i = choose|i: int| 0 <= i < partial.len() && partial[i] == one;
    let j = choose|j: int| 0 <= j < partial.len() && partial[j] == other;
    assert(i != j);
}

/// What is told of a choice, field by field.
pub proof fn a_choice_is_told_as_it_stands(choice: ChoiceView)
    ensures
        ({
            let told = choice.doc();
            &&& told.at("button"@) == Some(Doc::number(choice.button))
            &&& told.at("name"@) == Some(
                match choice.name {
                    Some(name) => Doc::Text(name),
                    None => Doc::Null,
                },
            )
            &&& told.at("label"@) == Some(
                match choice.label {
                    Some(label) => Doc::Text(label),
                    None => Doc::Null,
                },
            )
            &&& choice.count matches Some(n) ==> told.at("count"@) == Some(Doc::number(n as int))
            &&& choice.levels matches Some(n) ==> told.at("levels"@) == Some(Doc::number(n as int))
            &&& choice.lapis matches Some(n) ==> told.at("lapis"@) == Some(Doc::number(n as int))
            &&& choice.count is None ==> told.at("count"@) == Some(Doc::Null)
            &&& choice.levels is None ==> told.at("levels"@) == Some(Doc::Null)
            &&& choice.lapis is None ==> told.at("lapis"@) == Some(Doc::Null)
            &&& told.bool_at("available"@) == Some(choice.available)
            &&& told.bool_at("selected"@) == Some(choice.selected)
        }),
{
    broadcast use {a_field_reads_back, an_empty_object_has_nothing};
    reveal_strlit("button");
    reveal_strlit("name");
    reveal_strlit("label");
    reveal_strlit("count");
    reveal_strlit("levels");
    reveal_strlit("lapis");
    reveal_strlit("available");
    reveal_strlit("selected");
    assert("button"@.len() == 6);
    assert("name"@.len() == 4);
    assert("label"@.len() == 5);
    assert("count"@.len() == 5);
    assert("levels"@.len() == 6);
    assert("lapis"@.len() == 5);
    assert("available"@.len() == 9);
    assert("selected"@.len() == 8);
    assert("button"@[0] != "levels"@[0]);
    assert("label"@[0] != "count"@[0]);
    assert("label"@[2] != "lapis"@[2]);
    assert("count"@[0] != "lapis"@[0]);
}

/// An enchanting offer costs the levels its table says and one lapis more than the offer before it;
/// it can be pressed with something to enchant and both at hand, or in creative. One with no cost is
/// none.
pub proof fn an_enchantment_costs_levels_and_lapis(reading: Reading, button: int)
    requires
        0 <= button < 3,
    ensures
        reading.data_of(button) <= 0 ==> reading.offer_of(button) is None,
        reading.data_of(button) > 0 ==> (reading.offer_of(button) matches Some(offer) && {
            &&& offer.button == button
            &&& offer.levels == Some(reading.data_of(button))
            &&& offer.lapis == Some((button + 1) as i32)
            &&& offer.count is None && !offer.selected
            &&& reading.slots@.len() == 0 ==> !offer.available
            &&& reading.slots@.len() >= 2 && reading.slots@[0] is None ==> !offer.available
            &&& reading.slots@.len() >= 2 && reading.slots@[0] is Some && reading.creative
                ==> offer.available
            &&& reading.slots@.len() >= 2 && reading.slots@[0] is Some && !reading.creative ==> (
            reading.slots@[1] matches Some(lapis) ==> (offer.available <==> lapis.count >= button + 1
                && reading.level >= reading.data_of(button)))
            &&& reading.slots@.len() >= 2 && reading.slots@[1] is None && !reading.creative
                ==> !offer.available
            &&& reading.data@.len() > 4 + button ==> (reading.data@[4 + button] matches Some(clue)
                ==> (clue >= 0 ==> (reading.known.entry_of("minecraft:enchantment"@, clue as int) matches Some(
                entry,
            ) ==> offer.name == Some(entry.path@))))
            &&& reading.data@.len() > 4 + button && reading.data@[4 + button] is None
                ==> offer.name is None
        }),
{
}

/// An enchantment is called by its description, with its level behind it unless one is all it has.
pub proof fn an_enchantment_is_called_with_its_level(reading: Reading, entry: RegistryEntry, level: i32)
    ensures
        entry.description is None ==> reading.enchantment_name_of(entry, level) is None,
        entry.description matches Some(description) ==> {
            &&& level == 1 && entry.max_level == Some(1i32) ==> reading.enchantment_name_of(
                entry,
                level,
            ) == Some(description@)
            &&& level != 1 ==> reading.enchantment_name_of(entry, level) == Some(
                description@ + " "@ + reading.words_for("enchantment.level."@ + dec(level as int)),
            )
            &&& (entry.max_level matches Some(most) && most != 1) ==> reading.enchantment_name_of(
                entry,
                level,
            ) == Some(
                description@ + " "@ + reading.words_for("enchantment.level."@ + dec(level as int)),
            )
        },
        reading.language@.dom().contains("k"@) ==> reading.words_for("k"@)
            == reading.language@["k"@]@,
        !reading.language@.dom().contains("k"@) ==> reading.words_for("k"@) == "k"@,
{
}

/// A stonecutter lists what it makes of what is in it, numbered in order, the one that is chosen
/// marked.
pub proof fn a_stonecutter_lists_what_it_makes(reading: Reading, item: u32, n: int)
    requires
        0 <= n < reading.stonecutter@.len(),
    ensures
        ({
            let before = reading.cuts_of(item, n);
            let all = reading.cuts_of(item, n + 1);
            let cutting = reading.stonecutter@[n];
            &&& !reading.known.takes(cutting.input, item) ==> all == before
            &&& reading.known.takes(cutting.input, item) ==> (first_item_of(
                cutting.display,
                reading.known,
            ) matches Some((result, count)) ==> {
                &&& all.len() == before.len() + 1
                &&& all.last().button == before.len()
                &&& all.last().count == Some(count)
                &&& all.last().available
                &&& reading.data@.len() > 0 ==> (reading.data@[0] matches Some(chosen)
                    ==> all.last().selected == (chosen == before.len()))
                &&& reading.data@.len() > 0 && reading.data@[0] is None ==> !all.last().selected
                &&& reading.known.path_of(result) matches Some(path) ==> all.last().name == Some(path)
                &&& result < reading.item_names@.len() ==> all.last().label == Some(
                    reading.item_names@[result as int]@,
                )
            })
        }),
{
}

/// A loom lists its patterns where a banner and a dye are in it, numbered in order.
pub proof fn a_loom_lists_its_patterns(reading: Reading, i: int)
    ensures
        reading.slot_of(0) is None || reading.slot_of(1) is None ==> reading.loom_of().len() == 0,
        reading.slot_of(0) is Some && reading.slot_of(1) is Some ==> reading.loom_of().len()
            == reading.pattern_ids().len(),
        reading.slot_of(0) is Some && reading.slot_of(1) is Some && 0 <= i
            < reading.pattern_ids().len() ==> {
            let told = reading.loom_of()[i];
            &&& told.button == i
            &&& told.available
            &&& reading.pattern_ids()[i] >= 0 ==> (reading.known.entry_of(
                "minecraft:banner_pattern"@,
                reading.pattern_ids()[i] as int,
            ) matches Some(entry) ==> told.name == Some(entry.path@))
        },
        reading.slot_of(2) is None ==> reading.pattern_ids() == reading.known.members(
            "minecraft:banner_pattern"@,
            "minecraft:no_item_required"@,
        ),
        reading.slot_of(2) is Some ==> (reading.patterns matches Patterns::Direct(ids)
            ==> reading.pattern_ids() == ids@),
{
}

/// A lectern turns back where it is not at the first page, on where it is not at the last, and gives
/// its book to who may build.
pub proof fn a_lectern_turns_both_ways(reading: Reading)
    ensures
        reading.lectern_of().len() == 3,
        ({
            let back = reading.lectern_of()[0];
            let on = reading.lectern_of()[1];
            let take = reading.lectern_of()[2];
            &&& back.button == 1 && back.name == Some("previous page"@)
            &&& back.available <==> reading.data_of(0) >= 1
            &&& on.button == 2 && on.name == Some("next page"@)
            &&& on.available <==> reading.data_of(0) + 1 < reading.pages
            &&& take.button == 3 && take.name == Some("take book"@)
            &&& take.available <==> reading.may_build
        }),
{
}

/// Each menu offers its own: three enchantments, what a stonecutter makes, a loom's patterns, a
/// lectern's pages, and any other nothing to press.
pub proof fn each_menu_offers_its_own(reading: Reading)
    ensures
        reading.menu == Menu::Enchantment ==> reading.choices_of() == reading.offers_of(3),
        reading.menu == Menu::Loom ==> reading.choices_of() == reading.loom_of(),
        reading.menu == Menu::Lectern ==> reading.choices_of() == reading.lectern_of(),
        reading.menu == Menu::Stonecutter ==> (reading.slot_of(0) matches Some(stack)
            ==> reading.choices_of() == reading.cuts_of(
            stack.item,
            reading.stonecutter@.len() as int,
        )),
        reading.menu == Menu::Stonecutter && reading.slot_of(0) is None ==> reading.choices_of().len()
            == 0,
        reading.menu == Menu::Beacon ==> reading.choices_of().len() == 0,
{
}

/// What is told of a menu: its title, its kind, what it offers, and the page of a lectern counted from
/// one.
pub proof fn a_menu_is_told_as_it_stands(reading: Reading)
    ensures
        ({
            let told = reading.description();
            &&& told.text_at("type"@) == Some(kind_name(reading.menu))
            &&& told.items_at("options"@)->0.len() == reading.choices_of().len()
            &&& forall|i: int|
                0 <= i < reading.choices_of().len() ==> (#[trigger] told.items_at("options"@)->0[i])
                    == reading.choices_of()[i].doc()
            &&& reading.menu != Menu::Lectern ==> told.text_at("title"@) == Some(
                reading.title@.words(),
            ) && told.at("titleComponent"@) == Some(reading.title@) && told.at("page"@) == Some(
                Doc::Null,
            ) && told.at("pageCount"@) == Some(Doc::Null)
            &&& reading.menu == Menu::Lectern ==> told.at("page"@) == Some(
                Doc::number(reading.data_of(0) + 1),
            ) && told.at("pageCount"@) == Some(Doc::number(reading.pages as int))
            &&& reading.menu == Menu::Beacon ==> told.at("beacon"@) == Some(reading.beacon_of())
            &&& reading.menu != Menu::Beacon ==> told.at("beacon"@) == Some(Doc::Null)
        }),
{
    broadcast use {a_field_reads_back, an_empty_object_has_nothing};
    reveal_strlit("title");
    reveal_strlit("titleComponent");
    reveal_strlit("type");
    reveal_strlit("options");
    reveal_strlit("page");
    reveal_strlit("pageCount");
    reveal_strlit("beacon");
    assert("title"@.len() == 5);
    assert("titleComponent"@.len() == 14);
    assert("type"@.len() == 4);
    assert("options"@.len() == 7);
    assert("page"@.len() == 4);
    assert("pageCount"@.len() == 9);
    assert("beacon"@.len() == 6);
    assert("type"@[0] != "page"@[0]);
}

/// A beacon tells its levels, what is paid with, and each effect with the levels it needs: speed and
/// haste one, resistance and jump boost two, strength three, regeneration four.
pub proof fn a_beacon_is_told_as_it_stands(reading: Reading)
    ensures
        ({
            let told = reading.beacon_of();
            let effects = told.items_at("effects"@)->0;
            &&& told.at("levels"@) == Some(Doc::number(reading.data_of(0) as int))
            &&& reading.slot_of(0) matches Some(stack) ==> told.text_at("payment"@) == Some(stack.name@)
            &&& reading.slot_of(0) is None ==> told.at("payment"@) == Some(Doc::Null)
            &&& effects.len() >= 6
            &&& effects[0].text_at("name"@) == Some("speed"@) && effects[0].at("levels"@) == Some(
                Doc::number(1),
            )
            &&& effects[1].text_at("name"@) == Some("haste"@) && effects[1].at("levels"@) == Some(
                Doc::number(1),
            )
            &&& effects[2].text_at("name"@) == Some("resistance"@) && effects[2].at("levels"@) == Some(
                Doc::number(2),
            )
            &&& effects[3].text_at("name"@) == Some("jump_boost"@) && effects[3].at("levels"@) == Some(
                Doc::number(2),
            )
            &&& effects[4].text_at("name"@) == Some("strength"@) && effects[4].at("levels"@) == Some(
                Doc::number(3),
            )
            &&& effects[5].text_at("name"@) == Some("regeneration"@) && effects[5].at("levels"@)
                == Some(Doc::number(4))
            &&& effects[4].text_at("slot"@) == Some("primary"@)
            &&& effects[5].text_at("slot"@) == Some("secondary"@)
            &&& effects[0].bool_at("available"@) == Some(reading.data_of(0) >= 1)
            &&& effects[5].bool_at("available"@) == Some(reading.data_of(0) >= 4)
        }),
{
    broadcast use {a_field_reads_back, an_empty_object_has_nothing};
    reveal_strlit("levels");
    reveal_strlit("payment");
    reveal_strlit("effects");
    reveal_strlit("name");
    reveal_strlit("label");
    reveal_strlit("slot");
    reveal_strlit("available");
    reveal_strlit("selected");
    assert("levels"@.len() == 6);
    assert("payment"@.len() == 7);
    assert("effects"@.len() == 7);
    assert("name"@.len() == 4);
    assert("label"@.len() == 5);
    assert("slot"@.len() == 4);
    assert("available"@.len() == 9);
    assert("selected"@.len() == 8);
    assert("payment"@[0] != "effects"@[0]);
    assert("name"@[0] != "slot"@[0]);
    let rows = reading.beacon_effects_of();
    assert(rows[0] == reading.effect_doc("speed"@, true, 1, false));
    assert(rows[1] == reading.effect_doc("haste"@, true, 1, false));
    assert(rows[2] == reading.effect_doc("resistance"@, true, 2, false));
    assert(rows[3] == reading.effect_doc("jump_boost"@, true, 2, false));
    assert(rows[4] == reading.effect_doc("strength"@, true, 3, false));
    assert(rows[5] == reading.effect_doc("regeneration"@, false, 4, false));
}

/// An effect is selected where its slot has it, the primary by the second of a beacon's values and the
/// secondary by the third; the upgrade is the primary again, at level II.
pub proof fn an_effect_is_told_as_it_is_set(
    reading: Reading,
    effect: Seq<char>,
    primary: bool,
    levels: int,
    upgrade: bool,
)
    ensures
        ({
            let told = reading.effect_doc(effect, primary, levels, upgrade);
            &&& told.text_at("name"@) == Some(effect)
            &&& told.at("levels"@) == Some(Doc::number(levels))
            &&& told.bool_at("available"@) == Some(reading.data_of(0) >= levels)
            &&& told.bool_at("selected"@) == Some(
                reading.effect_held(
                    if primary {
                        reading.data_of(1)
                    } else {
                        reading.data_of(2)
                    },
                ) == Some(effect),
            )
            &&& !upgrade ==> told.text_at("label"@) == Some(
                reading.words_for("effect.minecraft."@ + effect),
            )
            &&& upgrade ==> told.text_at("label"@) == Some(
                reading.words_for("effect.minecraft."@ + effect) + " II"@,
            )
            &&& told.text_at("slot"@) == Some(
                if primary {
                    "primary"@
                } else {
                    "secondary"@
                },
            )
        }),
        reading.effect_held(0) is None,
        reading.effects@.len() > 0 ==> reading.effect_held(1) == Some(reading.effects@[0]@),
{
    broadcast use {a_field_reads_back, an_empty_object_has_nothing};
    reveal_strlit("name");
    reveal_strlit("label");
    reveal_strlit("slot");
    reveal_strlit("levels");
    reveal_strlit("available");
    reveal_strlit("selected");
    assert("name"@.len() == 4);
    assert("label"@.len() == 5);
    assert("slot"@.len() == 4);
    assert("levels"@.len() == 6);
    assert("available"@.len() == 9);
    assert("selected"@.len() == 8);
    assert("name"@[0] != "slot"@[0]);
}

/// A choice is called by its label or its name, in whole, whatever the case; a part of either sounds
/// like it.
pub proof fn a_choice_goes_by_both_its_names(choice: ChoiceView, lowered: Seq<char>)
    ensures
        choice.label matches Some(label) ==> (lowercase_of(label) == lowered ==> choice.is_called(
            lowered,
        )) && (occurs(lowercase_of(label), lowered) ==> choice.sounds_like(lowered)),
        choice.name matches Some(name) ==> (lowercase_of(name) == lowered ==> choice.is_called(
            lowered,
        )) && (occurs(lowercase_of(name), lowered) ==> choice.sounds_like(lowered)),
        choice.label is None && choice.name is None ==> !choice.is_called(lowered)
            && !choice.sounds_like(lowered),
        choice.label matches Some(label) ==> choice.spoken_of() == quoted(label),
        choice.label is None ==> (choice.name matches Some(name) ==> choice.spoken_of() == quoted(
            name,
        )),
{
}

proof fn exact_is_called(choices: Seq<ChoiceView>, lowered: Seq<char>, from: int)
    requires
        0 <= from,
    ensures
        match exact_choice(choices, lowered, from) {
            Some(i) => from <= i < choices.len() && choices[i].is_called(lowered),
            None => forall|i: int|
                from <= i < choices.len() ==> !(#[trigger] choices[i]).is_called(lowered),
        },
    decreases choices.len() - from,
{
    if from < choices.len() && !choices[from].is_called(lowered) {
        exact_is_called(choices, lowered, from + 1);
    }
}

proof fn partial_sounds(choices: Seq<ChoiceView>, lowered: Seq<char>, n: int, k: int)
    requires
        0 <= n <= choices.len(),
        0 <= k < partial_choices(choices, lowered, n).len(),
    ensures
        0 <= partial_choices(choices, lowered, n)[k] < n,
        choices[partial_choices(choices, lowered, n)[k]].sounds_like(lowered),
    decreases n,
{
    if n > 0 {
        let before = partial_choices(choices, lowered, n - 1);
        if k < before.len() {
            partial_sounds(choices, lowered, n - 1, k);
        }
    }
}

/// What is picked is called what was asked for, and only where nothing is, sounds like it.
pub proof fn what_is_picked_goes_by_what_was_asked(
    choices: Seq<ChoiceView>,
    wanted: Seq<char>,
    menu: Menu,
    pages: i32,
    other: int,
)
    requires
        0 <= other < choices.len(),
    ensures
        ({
            let lowered = lowercase_of(trimmed(wanted));
            &&& picked_choice(choices, wanted, menu, pages) matches Ok(i) ==> 0 <= i < choices.len()
                && (choices[i].is_called(lowered) || (choices[i].sounds_like(lowered)
                && !choices[other].is_called(lowered)))
            &&& choices[other].is_called(lowered) ==> picked_choice(choices, wanted, menu, pages) is Ok
        }),
{
    let lowered = lowercase_of(trimmed(wanted));
    exact_is_called(choices, lowered, 0);
    if exact_choice(choices, lowered, 0) is None && partial_choices(
        choices,
        lowered,
        choices.len() as int,
    ).len() == 1 {
        partial_sounds(choices, lowered, choices.len() as int, 0);
    }
}

/// What is picked is pressed where it can be, by its own button; what is chosen already is left
/// alone, and what cannot be pressed is refused.
pub proof fn what_is_picked_is_pressed(reading: Reading, option: Seq<char>, i: int)
    requires
        picked_choice(reading.choices_of(), option, reading.menu, reading.pages) == Ok::<
            int,
            FailureView,
        >(i),
    ensures
        ({
            let chosen = reading.choices_of()[i];
            &&& chosen.selected ==> (choosing_of(reading, option) matches Ok((button, _))
                && button is None)
            &&& !chosen.selected && chosen.available ==> (choosing_of(reading, option) matches Ok(
                (button, _),
            ) && button == Some(chosen.button))
            &&& !chosen.selected && !chosen.available ==> (choosing_of(reading, option) matches Err(
                failure,
            ) && failure.code == "OPTION_UNAVAILABLE"@)
        }),
{
}

/// A lectern is turned to the page that is asked for by the button 99 above it, where there is such a
/// page and it is not the one that is open.
pub proof fn a_page_has_its_own_button(digits: Seq<char>, page: i32, pages: i32, open_at: i32, menu: Menu)
    requires
        integer_value(digits) == Some(page as int),
    ensures
        1 <= page <= pages && page != open_at + 1 ==> (turning_of(digits, pages, open_at, menu) matches Ok(
            (button, _),
        ) && button == Some(99 + page)),
        1 <= page <= pages && page == open_at + 1 ==> (turning_of(digits, pages, open_at, menu) matches Ok(
            (button, _),
        ) && button is None),
        page < 1 || page > pages ==> (turning_of(digits, pages, open_at, menu) matches Err(failure)
            && failure.code == "NO_SUCH_PAGE"@),
{
}

/// A button is pressed as it is numbered; a name is looked up, but for a lectern's pages.
pub proof fn a_number_is_pressed_as_it_is(reading: Reading, option: Seq<char>, button: i64)
    ensures
        press_of(reading, None, button) matches Ok((sent, _)) && sent == Some(button as int),
        reading.menu != Menu::Lectern ==> press_of(reading, Some(option), button) == choosing_of(
            reading,
            option,
        ),
        reading.menu == Menu::Lectern ==> (expression_group(PAGE@, trimmed(option)) matches Some(digits)
            ==> press_of(reading, Some(option), button) == turning_of(
            digits,
            reading.pages,
            reading.data_of(0),
            reading.menu,
        )),
{
}

/// Either an option is named or a button numbered, and not both.
pub proof fn an_option_or_a_button_is_given(args: Doc, n: i64)
    requires
        args.at("button"@) == Some(Doc::Number(Number::Whole(n))) || (args.at("button"@) is None && n
            == -1),
    ensures
        args.at("option"@) is None && n >= 0 ==> press_args_of(args) == Ok::<
            (Option<Seq<char>>, i64),
            FailureView,
        >((None, n)),
        args.at("option"@) is None && n < 0 ==> press_args_of(args) is Err,
        args.text_at("option"@) matches Some(option) ==> (n < 0 ==> press_args_of(args) == Ok::<
            (Option<Seq<char>>, i64),
            FailureView,
        >((Some(option), n))) && (n >= 0 ==> press_args_of(args) is Err),
{
}

/// A beacon is set where each effect is one it gives and the pair is one it allows, to the effects
/// that were named.
pub proof fn a_beacon_is_set_to_what_was_named(
    reading: Reading,
    primary: Seq<char>,
    secondary: Option<Seq<char>>,
)
    ensures
        reading.menu != Menu::Beacon ==> (beacon_set_of(reading, primary, secondary) matches Err(
            failure,
        ) && failure.code == "NOT_A_BEACON"@),
        reading.menu == Menu::Beacon && effect_meant(reading, primary, 0) is None ==> (beacon_set_of(
            reading,
            primary,
            secondary,
        ) matches Err(failure) && failure.code == "NO_SUCH_EFFECT"@),
        beacon_set_of(reading, primary, secondary) matches Ok((first, second, _)) ==> {
            &&& effect_meant(reading, primary, 0) == Some(first)
            &&& secondary is None ==> second is None
            &&& secondary matches Some(name) ==> second == effect_meant(reading, name, 0)
                && second is Some
            &&& reading.slot_of(0) is Some
            &&& first != 5
            &&& second is Some ==> reading.data_of(0) >= 4
            &&& reading.data_of(0) >= levels_of(first)
        },
{
}

/// An effect is meant by its own id or by what it is called in the client's language.
pub proof fn an_effect_is_meant_by_its_name(reading: Reading, wanted: Seq<char>, from: int)
    requires
        0 <= from,
    ensures
        effect_meant(reading, wanted, from) matches Some(i) ==> from <= i < 6 && (beacon_effects()[i]
            == needle_of(wanted) || same_but_case(
            reading.words_for("effect.minecraft."@ + beacon_effects()[i]),
            trimmed(wanted),
        )),
        beacon_effects() == seq![
            "speed"@,
            "haste"@,
            "resistance"@,
            "jump_boost"@,
            "strength"@,
            "regeneration"@,
        ],
    decreases 6 - from,
{
    if from < 6 {
        an_effect_is_meant_by_its_name(reading, wanted, from + 1);
    }
}

/// What a beacon is asked for: a primary effect, and a secondary where one is named.
pub proof fn a_beacon_is_asked_for_by_name(args: Doc)
    ensures
        args.text_at("primary"@) is None ==> beacon_args_of(args) is Err,
        args.text_at("primary"@) matches Some(primary) ==> (args.at("secondary"@) is None
            ==> beacon_args_of(args) == Ok::<(Seq<char>, Option<Seq<char>>), FailureView>(
            (primary, None),
        )) && (args.text_at("secondary"@) matches Some(secondary) ==> beacon_args_of(args) == Ok::<
            (Seq<char>, Option<Seq<char>>),
            FailureView,
        >((primary, Some(secondary)))),
{
}

/// An effect reads by what the client calls it with its id behind, and a level in the singular for one.
pub proof fn an_effect_reads_with_its_id(reading: Reading, effect: Seq<char>, levels: int)
    ensures
        reading.effect_named_of(effect) == reading.words_for("effect.minecraft."@ + effect) + " ["@
            + effect + "]"@,
        counted(1) == dec(1) + " "@ + "level"@,
        levels != 1 ==> counted(levels) == dec(levels) + " "@ + "levels"@,
        pyramid(0) == "has none under it"@,
        levels_of(0) == 1 && levels_of(1) == 1 && levels_of(2) == 2 && levels_of(3) == 2 && levels_of(4)
            == 3 && levels_of(5) == 4,
{
}

/// Why an offer cannot be pressed: nothing to enchant, or what it costs beside what the bot has.
pub proof fn an_offer_says_what_it_costs(choice: ChoiceView, reading: Reading, levels: i32, lapis: i32)
    requires
        choice.levels == Some(levels),
        choice.lapis == Some(lapis),
    ensures
        reading.slot_of(0) is None ==> why_of(choice, reading)
            == ": there is nothing on the table to enchant"@,
        reading.slot_of(0) is Some ==> why_of(choice, reading) == ": it costs "@ + dec(levels as int)
            + " levels and "@ + dec(lapis as int) + " lapis, and the bot has "@ + dec(
            reading.level as int,
        ) + " levels and "@ + dec(reading.count_of(1) as int) + " lapis"@,
{
}

/// A value the server has not sent reads as what it is taken for, and a slot past the window is empty.
pub proof fn a_value_that_was_not_sent(data: Seq<Option<i32>>, index: int, otherwise: i32, reading: Reading)
    ensures
        index >= data.len() || index < 0 ==> value_at(data, index, otherwise) == otherwise,
        0 <= index < data.len() ==> (data[index] matches Some(value) ==> value_at(data, index, otherwise)
            == value) && (data[index] is None ==> value_at(data, index, otherwise) == otherwise),
        0 <= index < reading.slots@.len() ==> reading.slot_of(index) == reading.slots@[index],
        index >= reading.slots@.len() ==> reading.slot_of(index) is None,
        reading.slot_of(index) matches Some(stack) ==> reading.count_of(index) == stack.count,
        reading.slot_of(index) is None ==> reading.count_of(index) == 0,
        0 <= index < reading.data@.len() ==> (reading.data@[index] matches Some(value)
            ==> reading.data_of(index) == value),
{
}

/// What was set is told with both effects and what was paid.
pub proof fn what_was_set_is_told(reading: Reading, primary: int, stack: Stack)
    requires
        reading.slot_of(0) == Some(stack),
    ensures
        set_of(reading, primary, None) == "Set the beacon's primary effect to "@
            + reading.effect_named_of(beacon_effects()[primary]) + " with no secondary effect"@
            + ", paying one "@ + stack.name@
            + ". The window is closed, as the beacon's confirm button closes it."@,
        set_of(reading, primary, Some(primary)) == "Set the beacon's primary effect to "@
            + reading.effect_named_of(beacon_effects()[primary]) + " at level II"@ + ", paying one "@
            + stack.name@ + ". The window is closed, as the beacon's confirm button closes it."@,
{
}

} // verus!
