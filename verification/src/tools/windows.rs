//! Windows: what one holds, and what a click on it sends.
use vstd::prelude::*;

use crate::calls::{Answer, AnswerView, Failure, FailureView};
use crate::json::{a_field_reads_back, an_empty_object_has_nothing, docs, Doc, Json, Number};
use crate::pattern::{expression_fault, expression_found, Pattern};
use crate::place::BlockPos;
use crate::tools::args::{
    boolean, boolean_of, given, integer, integer_of, plain, text, text_of, text_or, text_or_of,
    whole_of, written, written_of,
};
use crate::tools::stacks::{described_of, held, held_of, slot as slot_doc, Stack};
use crate::words::{
    bare, cat2, cat3, cat4, dec, ends, ends_with, literals, quote, quoted, same, signed, wrapped_u8,
};

verus! {

/// A player inventory is 36 slots wherever it is attached.
pub const PLAYER_INVENTORY_SLOTS: usize = 36;

/// Clicking outside the window, where a drop and a drag's two ends go. The number is the protocol's.
pub const OUTSIDE: i16 = -999;

/// Ticks between clicking a container and giving up on its window.
pub const OPEN_TICKS: u32 = 100;

/// The off-hand's index in the player's inventory, which is what a swap's button names.
pub const OFF_HAND: u8 = 40;

/// A menu by what it is.
#[derive(Clone, Copy, Debug, PartialEq, Eq, Structural)]
pub enum Menu {
    Player,
    Generic9x1,
    Generic9x2,
    Generic9x3,
    Generic9x4,
    Generic9x5,
    Generic9x6,
    Generic3x3,
    Crafter3x3,
    Anvil,
    Beacon,
    BlastFurnace,
    BrewingStand,
    Crafting,
    Enchantment,
    Furnace,
    Grindstone,
    Hopper,
    Lectern,
    Loom,
    Merchant,
    ShulkerBox,
    Smithing,
    Smoker,
    CartographyTable,
    Stonecutter,
}

/// The client's own name for the screen a menu is drawn by.
pub open spec fn screen_name(menu: Menu) -> Seq<char> {
    match menu {
        Menu::Generic9x1 | Menu::Generic9x2 | Menu::Generic9x3 | Menu::Generic9x4
        | Menu::Generic9x5 | Menu::Generic9x6 => "ContainerScreen"@,
        Menu::Generic3x3 => "DispenserScreen"@,
        Menu::Crafter3x3 => "CrafterScreen"@,
        Menu::Anvil => "AnvilScreen"@,
        Menu::Beacon => "BeaconScreen"@,
        Menu::BlastFurnace => "BlastFurnaceScreen"@,
        Menu::BrewingStand => "BrewingStandScreen"@,
        Menu::Crafting => "CraftingScreen"@,
        Menu::Enchantment => "EnchantmentScreen"@,
        Menu::Furnace => "FurnaceScreen"@,
        Menu::Grindstone => "GrindstoneScreen"@,
        Menu::Hopper => "HopperScreen"@,
        Menu::Lectern => "LecternScreen"@,
        Menu::Loom => "LoomScreen"@,
        Menu::Merchant => "MerchantScreen"@,
        Menu::ShulkerBox => "ShulkerBoxScreen"@,
        Menu::Smithing => "SmithingScreen"@,
        Menu::Smoker => "SmokerScreen"@,
        Menu::CartographyTable => "CartographyTableScreen"@,
        Menu::Stonecutter => "StonecutterScreen"@,
        Menu::Player => "InventoryScreen"@,
    }
}

/// The client's own name for the screen a menu is drawn by, which is what a refusal names when the
/// screen is the wrong one.
pub fn screen(menu: Menu) -> (r: &'static str)
    ensures
        r@ == screen_name(menu),
{
    match menu {
        Menu::Generic9x1 | Menu::Generic9x2 | Menu::Generic9x3 | Menu::Generic9x4
        | Menu::Generic9x5 | Menu::Generic9x6 => "ContainerScreen",
        Menu::Generic3x3 => "DispenserScreen",
        Menu::Crafter3x3 => "CrafterScreen",
        Menu::Anvil => "AnvilScreen",
        Menu::Beacon => "BeaconScreen",
        Menu::BlastFurnace => "BlastFurnaceScreen",
        Menu::BrewingStand => "BrewingStandScreen",
        Menu::Crafting => "CraftingScreen",
        Menu::Enchantment => "EnchantmentScreen",
        Menu::Furnace => "FurnaceScreen",
        Menu::Grindstone => "GrindstoneScreen",
        Menu::Hopper => "HopperScreen",
        Menu::Lectern => "LecternScreen",
        Menu::Loom => "LoomScreen",
        Menu::Merchant => "MerchantScreen",
        Menu::ShulkerBox => "ShulkerBoxScreen",
        Menu::Smithing => "SmithingScreen",
        Menu::Smoker => "SmokerScreen",
        Menu::CartographyTable => "CartographyTableScreen",
        Menu::Stonecutter => "StonecutterScreen",
        Menu::Player => "InventoryScreen",
    }
}

/// The registry name of a window's type.
pub open spec fn kind_name(menu: Menu) -> Seq<char> {
    match menu {
        Menu::Player => "minecraft:inventory"@,
        Menu::Generic9x1 => "minecraft:generic_9x1"@,
        Menu::Generic9x2 => "minecraft:generic_9x2"@,
        Menu::Generic9x3 => "minecraft:generic_9x3"@,
        Menu::Generic9x4 => "minecraft:generic_9x4"@,
        Menu::Generic9x5 => "minecraft:generic_9x5"@,
        Menu::Generic9x6 => "minecraft:generic_9x6"@,
        Menu::Generic3x3 => "minecraft:generic_3x3"@,
        Menu::Crafter3x3 => "minecraft:crafter_3x3"@,
        Menu::Anvil => "minecraft:anvil"@,
        Menu::Beacon => "minecraft:beacon"@,
        Menu::BlastFurnace => "minecraft:blast_furnace"@,
        Menu::BrewingStand => "minecraft:brewing_stand"@,
        Menu::Crafting => "minecraft:crafting"@,
        Menu::Enchantment => "minecraft:enchantment"@,
        Menu::Furnace => "minecraft:furnace"@,
        Menu::Grindstone => "minecraft:grindstone"@,
        Menu::Hopper => "minecraft:hopper"@,
        Menu::Lectern => "minecraft:lectern"@,
        Menu::Loom => "minecraft:loom"@,
        Menu::Merchant => "minecraft:merchant"@,
        Menu::ShulkerBox => "minecraft:shulker_box"@,
        Menu::Smithing => "minecraft:smithing"@,
        Menu::Smoker => "minecraft:smoker"@,
        Menu::CartographyTable => "minecraft:cartography_table"@,
        Menu::Stonecutter => "minecraft:stonecutter"@,
    }
}

/// The registry name of a window's type.
pub fn kind(menu: Menu) -> (r: &'static str)
    ensures
        r@ == kind_name(menu),
{
    match menu {
        Menu::Player => "minecraft:inventory",
        Menu::Generic9x1 => "minecraft:generic_9x1",
        Menu::Generic9x2 => "minecraft:generic_9x2",
        Menu::Generic9x3 => "minecraft:generic_9x3",
        Menu::Generic9x4 => "minecraft:generic_9x4",
        Menu::Generic9x5 => "minecraft:generic_9x5",
        Menu::Generic9x6 => "minecraft:generic_9x6",
        Menu::Generic3x3 => "minecraft:generic_3x3",
        Menu::Crafter3x3 => "minecraft:crafter_3x3",
        Menu::Anvil => "minecraft:anvil",
        Menu::Beacon => "minecraft:beacon",
        Menu::BlastFurnace => "minecraft:blast_furnace",
        Menu::BrewingStand => "minecraft:brewing_stand",
        Menu::Crafting => "minecraft:crafting",
        Menu::Enchantment => "minecraft:enchantment",
        Menu::Furnace => "minecraft:furnace",
        Menu::Grindstone => "minecraft:grindstone",
        Menu::Hopper => "minecraft:hopper",
        Menu::Lectern => "minecraft:lectern",
        Menu::Loom => "minecraft:loom",
        Menu::Merchant => "minecraft:merchant",
        Menu::ShulkerBox => "minecraft:shulker_box",
        Menu::Smithing => "minecraft:smithing",
        Menu::Smoker => "minecraft:smoker",
        Menu::CartographyTable => "minecraft:cartography_table",
        Menu::Stonecutter => "minecraft:stonecutter",
    }
}

/// A menu the server opened. The player's own inventory is not one, because nothing here opens it.
pub struct Window {
    pub id: i32,
    pub menu: Menu,
    pub title: Json,
    pub slots: Vec<Option<Stack>>,
}

/// An open window: a menu drawn as slots. A lectern is a menu the game draws as a book, and every
/// tool that reads or clicks a window finds nothing open in front of one, as a player's client does.
pub fn open(window: Option<&Window>) -> (r: Option<&Window>)
    ensures
        match r {
            Some(shown) => window == Some(shown) && shown.menu != Menu::Lectern,
            None => window matches Some(shown) ==> shown.menu == Menu::Lectern,
        },
{
    match window {
        Some(window) => if window.menu == Menu::Lectern {
            None
        } else {
            Some(window)
        },
        None => None,
    }
}

/// A window whose contents have arrived. The server opens a window and fills it in two packets,
/// and one read between them describes an empty chest.
pub fn filled<'a>(window: Option<&'a Window>, contents: Option<i32>) -> (r: Option<&'a Window>)
    ensures
        match r {
            Some(shown) => window == Some(shown) && shown.menu != Menu::Lectern && contents == Some(
                shown.id,
            ),
            None => window matches Some(shown) ==> shown.menu == Menu::Lectern || contents != Some(
                shown.id,
            ),
        },
{
    match open(window) {
        Some(window) => match contents {
            Some(id) => if id == window.id {
                Some(window)
            } else {
                None
            },
            None => None,
        },
        None => None,
    }
}

/// What is said when no window is open.
pub open spec fn no_window() -> FailureView {
    FailureView::refusal(
        "NO_WINDOW"@,
        "No window is open. Run the command that opens the menu first, then use wait-for-window before reading or clicking it."@,
    )
}

pub fn require<'a>(window: Option<&'a Window>) -> (r: Result<&'a Window, Failure>)
    ensures
        match r {
            Ok(shown) => window == Some(shown) && shown.menu != Menu::Lectern,
            Err(failure) => (window matches Some(shown) ==> shown.menu == Menu::Lectern) && failure@
                == no_window(),
        },
{
    match open(window) {
        Some(window) => Ok(window),
        None => Err(
            Failure::refused(
                "NO_WINDOW",
                "No window is open. Run the command that opens the menu first, then use wait-for-window before reading or clicking it.".to_owned(),
            ),
        ),
    }
}

/// The slots of a window that hold something.
pub open spec fn filled_slots(slots: Seq<Option<Stack>>) -> Seq<Doc>
    decreases slots.len(),
{
    if slots.len() == 0 {
        Seq::empty()
    } else {
        match slots.last() {
            Some(stack) => filled_slots(slots.drop_last()).push(
                described_of(stack).with("slot"@, Doc::number(slots.len() - 1)),
            ),
            None => filled_slots(slots.drop_last()),
        }
    }
}

pub open spec fn less(n: int, m: int) -> int {
    if n > m {
        n - m
    } else {
        0
    }
}

/// A window as it is answered.
pub open spec fn window_doc(window: Window) -> Doc {
    let count = window.slots@.len() as int;
    let start = less(count, PLAYER_INVENTORY_SLOTS as int);
    Doc::object().with("title"@, Doc::Text(window.title@.words())).with(
        "titleComponent"@,
        window.title@,
    ).with("type"@, Doc::Text(kind_name(window.menu))).with("slotCount"@, Doc::number(count)).with(
        "containerSlots"@,
        Doc::list(seq![Doc::number(0), Doc::number(less(start, 1))]),
    ).with(
        "inventorySlots"@,
        Doc::list(seq![Doc::number(start), Doc::number(less(count, 1))]),
    ).with("filled"@, Doc::list(filled_slots(window.slots@)))
}

fn pair(a: usize, b: usize) -> (r: Json)
    ensures
        r@ == Doc::list(seq![Doc::number(a as int), Doc::number(b as int)]),
{
    let mut list: Vec<Json> = Vec::new();
    list.push(Json::count(a as u64));
    list.push(Json::count(b as u64));
    proof {
        assert(docs(list@) =~= seq![Doc::number(a as int), Doc::number(b as int)]);
    }
    Json::list(list)
}

fn minus(n: usize, m: usize) -> (r: usize)
    ensures
        r == less(n as int, m as int),
{
    if n > m {
        n - m
    } else {
        0
    }
}

pub fn describe(window: &Window) -> (r: Json)
    ensures
        r@ == window_doc(*window),
{
    let mut list: Vec<Json> = Vec::new();
    let mut i: usize = 0;
    proof {
        assert(docs(list@) =~= filled_slots(window.slots@.take(0)));
    }
    while i < window.slots.len()
        invariant
            i <= window.slots@.len(),
            docs(list@) == filled_slots(window.slots@.take(i as int)),
        decreases window.slots@.len() - i,
    {
        let ghost before = list@;
        proof {
            assert(window.slots@.take(i as int + 1).drop_last() =~= window.slots@.take(i as int));
        }
        match &window.slots[i] {
            Some(stack) => {
                list.push(slot_doc(stack, i));
                proof {
                    assert(docs(list@) =~= docs(before).push(list@.last()@));
                }
            },
            None => {},
        }
        i += 1;
    }
    proof {
        assert(window.slots@.take(window.slots@.len() as int) =~= window.slots@);
    }
    let count: usize = window.slots.len();
    let start: usize = minus(count, PLAYER_INVENTORY_SLOTS);
    Json::object().with("title", Json::Text(window.title.words())).with(
        "titleComponent",
        window.title.copy(),
    ).with("type", Json::text(kind(window.menu))).with("slotCount", Json::count(count as u64)).with(
        "containerSlots",
        pair(0, minus(start, 1)),
    ).with("inventorySlots", pair(start, minus(count, 1))).with("filled", Json::list(list))
}

/// What read-window answers. Nothing being open is a state, so it travels as no window rather than
/// as a refusal.
pub fn read_window(window: Option<&Window>) -> (r: Answer)
    ensures
        r@ == AnswerView::full(
            "read-window"@,
            Doc::object().with(
                "window"@,
                match window {
                    Some(window) => if window.menu == Menu::Lectern {
                        Doc::Null
                    } else {
                        window_doc(*window)
                    },
                    None => Doc::Null,
                },
            ),
        ),
{
    let shown = match open(window) {
        Some(window) => describe(window),
        None => Json::Null,
    };
    Answer::data("read-window".to_owned(), Json::object().with("window", shown))
}

/// What is said of a slot a window does not have.
pub open spec fn out_of_range_of(slot: int, count: int) -> FailureView {
    FailureView::refusal(
        "SLOT_OUT_OF_RANGE"@,
        "Slot "@ + dec(slot) + " is outside the window, whose slots run 0-"@ + dec(count - 1),
    )
}

fn out_of_range(slot: i64, count: usize) -> (r: Failure)
    requires
        count <= i64::MAX,
    ensures
        r@ == out_of_range_of(slot as int, count as int),
{
    Failure::refused(
        "SLOT_OUT_OF_RANGE",
        cat4(
            "Slot ",
            signed(slot).as_str(),
            " is outside the window, whose slots run 0-",
            signed(count as i64 - 1).as_str(),
        ),
    )
}

#[derive(Clone, Copy, Debug, PartialEq, Eq, Structural)]
pub enum ClickType {
    Pickup,
    QuickMove,
    Swap,
    Clone,
    Throw,
    QuickCraft,
    PickupAll,
}

/// What a mode sends: the click type, and a button whose meaning is the type's.
pub open spec fn input_of(mode: Seq<char>, button: Seq<char>, shift: bool, hotbar: i64) -> Result<
    (ClickType, int),
    FailureView,
> {
    if mode != "click"@ && (shift || button != "left"@) {
        Err(
            FailureView::misuse(
                "button and shift shape a click, and "@ + mode + " takes neither"@,
            ),
        )
    } else if (mode == "swap-hotbar"@) != (hotbar != 0) {
        Err(
            FailureView::misuse(
                "hotbar names the key for swap-hotbar, and only swap-hotbar takes one"@,
            ),
        )
    } else if mode == "click"@ {
        Ok(
            (
                if shift {
                    ClickType::QuickMove
                } else {
                    ClickType::Pickup
                },
                if button == "right"@ {
                    1
                } else {
                    0
                },
            ),
        )
    } else if mode == "swap-hotbar"@ {
        Ok((ClickType::Swap, (hotbar - 1) % 0x100))
    } else if mode == "swap-offhand"@ {
        Ok((ClickType::Swap, OFF_HAND as int))
    } else if mode == "throw-one"@ {
        Ok((ClickType::Throw, 0))
    } else if mode == "throw-stack"@ {
        Ok((ClickType::Throw, 1))
    } else if mode == "pickup-all"@ {
        Ok((ClickType::PickupAll, 0))
    } else if mode == "clone"@ {
        Ok((ClickType::Clone, 0))
    } else {
        Err(FailureView::misuse("unknown mode "@ + mode))
    }
}

/// What a mode sends: the click type, and a button whose meaning is the type's. A swap's button is
/// an inventory index -- the "1" key is 0 -- a throw's is 0 for one item and 1 for the stack.
///
/// A shift or a right button given to anything but a click is refused rather than dropped. Every
/// one of them would still send something, and it would be a different input from the one asked for.
pub fn input(mode: &str, button: &str, shift: bool, hotbar: i64) -> (r: Result<
    (ClickType, u8),
    Failure,
>)
    ensures
        match r {
            Ok((click, key)) => input_of(mode@, button@, shift, hotbar) == Ok::<
                (ClickType, int),
                FailureView,
            >((click, key as int)),
            Err(failure) => input_of(mode@, button@, shift, hotbar) == Err::<
                (ClickType, int),
                FailureView,
            >(failure@),
        },
        mode@ == "throw-one"@ && button@ == "left"@ && !shift && hotbar == 0 ==> (r matches Ok(
            (ClickType::Throw, 0u8),
        )),
        mode@ == "throw-stack"@ && button@ == "left"@ && !shift && hotbar == 0 ==> (r matches Ok(
            (ClickType::Throw, 1u8),
        )),
{
    proof {
        each_mode_sends_its_own_click(mode@, button@, shift, hotbar);
    }
    let click: bool = same(mode, "click");
    let swap: bool = same(mode, "swap-hotbar");
    if !click && (shift || !same(button, "left")) {
        return Err(
            Failure::bad_args(
                cat3("button and shift shape a click, and ", mode, " takes neither"),
            ),
        );
    }
    if swap != (hotbar != 0) {
        return Err(
            Failure::bad_args(
                "hotbar names the key for swap-hotbar, and only swap-hotbar takes one".to_owned(),
            ),
        );
    }
    if click {
        let key: u8 = if same(button, "right") {
            1
        } else {
            0
        };
        Ok(
            (
                if shift {
                    ClickType::QuickMove
                } else {
                    ClickType::Pickup
                },
                key,
            ),
        )
    } else if swap {
        let low: u8 = wrapped_u8(hotbar);
        let key: u8 = if low == 0 {
            255
        } else {
            low - 1
        };
        Ok((ClickType::Swap, key))
    } else if same(mode, "swap-offhand") {
        Ok((ClickType::Swap, OFF_HAND))
    } else if same(mode, "throw-one") {
        Ok((ClickType::Throw, 0))
    } else if same(mode, "throw-stack") {
        Ok((ClickType::Throw, 1))
    } else if same(mode, "pickup-all") {
        Ok((ClickType::PickupAll, 0))
    } else if same(mode, "clone") {
        Ok((ClickType::Clone, 0))
    } else {
        Err(Failure::bad_args(cat2("unknown mode ", mode)))
    }
}

/// click-slot's arguments as the wire gives them.
pub struct ClickArgs {
    pub slot: i64,
    pub outside: bool,
    pub button: String,
    pub shift: bool,
    pub mode: String,
    pub hotbar: i64,
}

pub struct ClickArgsView {
    pub slot: i64,
    pub outside: bool,
    pub button: Seq<char>,
    pub shift: bool,
    pub mode: Seq<char>,
    pub hotbar: i64,
}

impl View for ClickArgs {
    type V = ClickArgsView;

    open spec fn view(&self) -> ClickArgsView {
        ClickArgsView {
            slot: self.slot,
            outside: self.outside,
            button: self.button@,
            shift: self.shift,
            mode: self.mode@,
            hotbar: self.hotbar,
        }
    }
}

/// What click-slot's arguments say, or the first of them that is wrong.
pub open spec fn click_args_of(args: Doc) -> Result<ClickArgsView, FailureView> {
    let slot = integer_of(args, "slot"@, (-1) as i64);
    let outside = boolean_of(args, "outside"@, false);
    let button = text_of(args, "button"@);
    let shift = boolean_of(args, "shift"@, false);
    let mode = text_or_of(args, "mode"@, "click"@);
    let hotbar = integer_of(args, "hotbar"@, 0);
    if slot is Err {
        Err(slot->Err_0)
    } else if outside is Err {
        Err(outside->Err_0)
    } else if button is Err {
        Err(button->Err_0)
    } else if shift is Err {
        Err(shift->Err_0)
    } else if mode is Err {
        Err(mode->Err_0)
    } else if hotbar is Err {
        Err(hotbar->Err_0)
    } else {
        Ok(
            ClickArgsView {
                slot: slot->Ok_0,
                outside: outside->Ok_0,
                button: button->Ok_0,
                shift: shift->Ok_0,
                mode: mode->Ok_0,
                hotbar: hotbar->Ok_0,
            },
        )
    }
}

/// Where a click lands.
pub enum Landing {
    /// Outside the window, where the cursor is dropped: all of it on the left button, one item on
    /// the right.
    Outside { button: u8 },
    Slot { slot: usize, click: ClickType, key: u8 },
}

pub enum LandingView {
    Outside(int),
    Slot(int, ClickType, int),
}

impl View for Landing {
    type V = LandingView;

    open spec fn view(&self) -> LandingView {
        match self {
            Landing::Outside { button } => LandingView::Outside(*button as int),
            Landing::Slot { slot, click, key } => LandingView::Slot(
                *slot as int,
                *click,
                *key as int,
            ),
        }
    }
}

/// Where a click lands on a window of so many slots, and what it sends.
pub open spec fn landing_of(args: ClickArgsView, count: int) -> Result<LandingView, FailureView> {
    if args.outside {
        if args.slot >= 0 || args.mode != "click"@ || args.shift {
            Err(
                FailureView::misuse(
                    "a click outside the window is a plain click, and takes no slot, mode or shift"@,
                ),
            )
        } else {
            Ok(
                LandingView::Outside(
                    if args.button == "right"@ {
                        1
                    } else {
                        0
                    },
                ),
            )
        }
    } else if args.slot < 0 {
        Err(
            FailureView::misuse(
                "click-slot needs a slot, or outside for a click outside the window"@,
            ),
        )
    } else if args.slot >= count {
        Err(out_of_range_of(args.slot as int, count))
    } else {
        match input_of(args.mode, args.button, args.shift, args.hotbar) {
            Ok((click, key)) => Ok(LandingView::Slot(args.slot as int, click, key)),
            Err(failure) => Err(failure),
        }
    }
}

impl ClickArgs {
    pub fn parse(args: &Json) -> (r: Result<ClickArgs, Failure>)
        ensures
            match r {
                Ok(click) => click_args_of(args@) == Ok::<ClickArgsView, FailureView>(click@),
                Err(failure) => click_args_of(args@) == Err::<ClickArgsView, FailureView>(failure@),
            },
    {
        let slot: i64 = match integer(args, "slot", -1) {
            Ok(n) => n,
            Err(failure) => {
                return Err(failure);
            },
        };
        let outside: bool = match boolean(args, "outside", false) {
            Ok(b) => b,
            Err(failure) => {
                return Err(failure);
            },
        };
        let button: String = match text(args, "button") {
            Ok(text) => text.to_owned(),
            Err(failure) => {
                return Err(failure);
            },
        };
        let shift: bool = match boolean(args, "shift", false) {
            Ok(b) => b,
            Err(failure) => {
                return Err(failure);
            },
        };
        let mode: String = match text_or(args, "mode", "click") {
            Ok(text) => text.to_owned(),
            Err(failure) => {
                return Err(failure);
            },
        };
        let hotbar: i64 = match integer(args, "hotbar", 0) {
            Ok(n) => n,
            Err(failure) => {
                return Err(failure);
            },
        };
        Ok(ClickArgs { slot, outside, button, shift, mode, hotbar })
    }

    /// Where the click lands on a window of so many slots, and what it sends.
    pub fn landing(&self, count: usize) -> (r: Result<Landing, Failure>)
        requires
            count <= i64::MAX,
        ensures
            match r {
                Ok(landing) => landing_of(self@, count as int) == Ok::<LandingView, FailureView>(
                    landing@,
                ),
                Err(failure) => landing_of(self@, count as int) == Err::<LandingView, FailureView>(
                    failure@,
                ),
            },
    {
        if self.outside {
            if self.slot >= 0 || !same(self.mode.as_str(), "click") || self.shift {
                return Err(
                    Failure::bad_args(
                        "a click outside the window is a plain click, and takes no slot, mode or shift".to_owned(),
                    ),
                );
            }
            let button: u8 = if same(self.button.as_str(), "right") {
                1
            } else {
                0
            };
            return Ok(Landing::Outside { button });
        }
        if self.slot < 0 {
            return Err(
                Failure::bad_args(
                    "click-slot needs a slot, or outside for a click outside the window".to_owned(),
                ),
            );
        }
        if self.slot >= count as i64 {
            return Err(out_of_range(self.slot, count));
        }
        match input(self.mode.as_str(), self.button.as_str(), self.shift, self.hotbar) {
            Ok((click, key)) => Ok(Landing::Slot { slot: self.slot as usize, click, key }),
            Err(failure) => Err(failure),
        }
    }
}

/// What a click outside the window is answered: the cursor before it and after it, since it lands on
/// no slot.
pub fn clicked_outside(button: &str, before: &Option<Stack>, after: &Option<Stack>) -> (r: Answer)
    ensures
        r@ == AnswerView::full(
            "click-slot"@,
            Doc::object().with("slot"@, Doc::Null).with("outside"@, Doc::Bool(true)).with(
                "button"@,
                Doc::Text(button@),
            ).with("shift"@, Doc::Bool(false)).with("mode"@, Doc::Text("click"@)).with(
                "hotbar"@,
                Doc::Null,
            ).with("before"@, held_of(*before)).with("after"@, held_of(*after)).with(
                "cursor"@,
                held_of(*after),
            ).with("swapped"@, Doc::Null),
        ),
{
    Answer::data(
        "click-slot".to_owned(),
        Json::object().with("slot", Json::Null).with("outside", Json::Bool(true)).with(
            "button",
            Json::text(button),
        ).with("shift", Json::Bool(false)).with("mode", Json::text("click")).with(
            "hotbar",
            Json::Null,
        ).with("before", held(before)).with("after", held(after)).with("cursor", held(after)).with(
            "swapped",
            Json::Null,
        ),
    )
}

/// What a swap left: what the other stack was before it and is after it.
pub open spec fn swap_doc(swapped: Option<(Option<Stack>, Option<Stack>)>) -> Doc {
    match swapped {
        Some((before, after)) => Doc::object().with("before"@, held_of(before)).with(
            "after"@,
            held_of(after),
        ),
        None => Doc::Null,
    }
}

/// Whether the off-hand holds what the slot had. The off-hand is in no container window, so the
/// server's answer does not carry it, and what went there is read off the slot: a swap that happened
/// left the slot holding what the off-hand had, and the off-hand holding what the slot had. `key` is
/// the key of a swap, `took` whether the slot now holds what the off-hand had, and `changed` whether
/// it holds something else than before.
pub fn off_hand_took(key: Option<u8>, took: bool, changed: bool) -> (r: bool)
    ensures
        r == (key == Some(OFF_HAND) && took && changed),
{
    match key {
        Some(key) => key == OFF_HAND && took && changed,
        None => false,
    }
}

/// What a click on a slot is answered.
pub fn clicked_slot(
    args: &ClickArgs,
    before: &Option<Stack>,
    after: &Option<Stack>,
    cursor: &Option<Stack>,
    swapped: &Option<(Option<Stack>, Option<Stack>)>,
) -> (r: Answer)
    ensures
        r@ == AnswerView::full(
            "click-slot"@,
            Doc::object().with("slot"@, Doc::number(args.slot as int)).with(
                "outside"@,
                Doc::Bool(false),
            ).with("button"@, Doc::Text(args.button@)).with("shift"@, Doc::Bool(args.shift)).with(
                "mode"@,
                Doc::Text(args.mode@),
            ).with(
                "hotbar"@,
                if args.hotbar == 0 {
                    Doc::Null
                } else {
                    Doc::number(args.hotbar as int)
                },
            ).with("before"@, held_of(*before)).with("after"@, held_of(*after)).with(
                "cursor"@,
                held_of(*cursor),
            ).with("swapped"@, swap_doc(*swapped)),
        ),
{
    let swap = match swapped {
        Some((before, after)) => Json::object().with("before", held(before)).with(
            "after",
            held(after),
        ),
        None => Json::Null,
    };
    let hotbar = if args.hotbar == 0 {
        Json::Null
    } else {
        Json::number(args.hotbar)
    };
    Answer::data(
        "click-slot".to_owned(),
        Json::object().with("slot", Json::number(args.slot)).with("outside", Json::Bool(false)).with(
            "button",
            Json::Text(args.button.clone()),
        ).with("shift", Json::Bool(args.shift)).with("mode", Json::Text(args.mode.clone())).with(
            "hotbar",
            hotbar,
        ).with("before", held(before)).with("after", held(after)).with("cursor", held(cursor)).with(
            "swapped",
            swap,
        ),
    )
}

/// The kind of drag a button makes.
pub open spec fn drag_kind_of(button: Seq<char>) -> Result<int, FailureView> {
    if button == "left"@ {
        Ok(0)
    } else if button == "right"@ {
        Ok(1)
    } else if button == "middle"@ {
        Ok(2)
    } else {
        Err(FailureView::misuse("unknown button "@ + button))
    }
}

pub fn drag_kind(button: &str) -> (r: Result<u8, Failure>)
    ensures
        match r {
            Ok(kind) => drag_kind_of(button@) == Ok::<int, FailureView>(kind as int) && kind < 3,
            Err(failure) => drag_kind_of(button@) == Err::<int, FailureView>(failure@),
        },
{
    if same(button, "left") {
        Ok(0)
    } else if same(button, "right") {
        Ok(1)
    } else if same(button, "middle") {
        Ok(2)
    } else {
        Err(Failure::bad_args(cat2("unknown button ", button)))
    }
}

/// The button of a drag's phase: the phase in its low two bits and the kind of drag in the two
/// above. A wrong packing is refused nowhere: the menu resets its drag and nothing moves.
pub fn drag_mask(phase: u8, kind: u8) -> (r: u8)
    requires
        phase < 4,
        kind < 4,
    ensures
        r == phase + 4 * kind,
{
    phase + 4 * kind
}

/// One click of a drag: where it lands, and its button.
#[derive(Clone, Copy, Debug, PartialEq, Eq, Structural)]
pub struct DragClick {
    pub slot: Option<usize>,
    pub button: u8,
}

/// A drag's clicks: a start outside the window, one for each slot, an end outside again.
pub open spec fn drag_clicks_of(slots: Seq<usize>, kind: int) -> Seq<DragClick> {
    seq![DragClick { slot: None, button: (4 * kind) as u8 }] + Seq::new(
        slots.len(),
        |i: int| DragClick { slot: Some(slots[i]), button: (1 + 4 * kind) as u8 },
    ) + seq![DragClick { slot: None, button: (2 + 4 * kind) as u8 }]
}

/// A drag is three phases on both sides of the connection -- a start outside the window, a packet
/// per slot, an end outside again. All of it goes in one call, because any other click between the
/// start and the end resets the drag on the server.
pub fn drag_clicks(slots: &Vec<usize>, kind: u8) -> (r: Vec<DragClick>)
    requires
        kind < 3,
    ensures
        r@ == drag_clicks_of(slots@, kind as int),
{
    let mut out: Vec<DragClick> = Vec::new();
    out.push(DragClick { slot: None, button: drag_mask(0, kind) });
    let mut i: usize = 0;
    while i < slots.len()
        invariant
            i <= slots@.len(),
            kind < 3,
            out@.len() == i + 1,
            out@[0] == (DragClick { slot: None, button: (4 * kind) as u8 }),
            forall|k: int|
                0 <= k < i ==> #[trigger] out@[k + 1] == (DragClick {
                    slot: Some(slots@[k]),
                    button: (1 + 4 * kind) as u8,
                }),
        decreases slots@.len() - i,
    {
        out.push(DragClick { slot: Some(slots[i]), button: drag_mask(1, kind) });
        i += 1;
    }
    out.push(DragClick { slot: None, button: drag_mask(2, kind) });
    proof {
        let want = drag_clicks_of(slots@, kind as int);
        assert forall|k: int| 0 <= k < want.len() implies out@[k] == want[k] by {
            if 1 <= k <= slots@.len() {
                assert(out@[(k - 1) + 1] == want[k]);
            }
        }
        assert(out@ =~= want);
    }
    out
}

/// How an element of a list is written, where it is said.
pub open spec fn written_at(written: Seq<String>, i: int) -> Seq<char> {
    if 0 <= i < written.len() {
        written[i]@
    } else {
        Seq::empty()
    }
}

/// The integer an element of a list is, where it is one.
pub open spec fn whole_element(element: Doc) -> Option<i64> {
    match element {
        Doc::Number(number) => whole_of(number),
        _ => None,
    }
}

/// The first `n` slots of a drag, or the first of them that is wrong.
pub open spec fn drag_slots_of(items: Seq<Doc>, written: Seq<String>, count: int, n: int) -> Result<
    Seq<int>,
    FailureView,
>
    decreases n,
{
    if n <= 0 {
        Ok(Seq::empty())
    } else {
        match drag_slots_of(items, written, count, n - 1) {
            Err(failure) => Err(failure),
            Ok(slots) => match whole_element(items[n - 1]) {
                None => Err(
                    FailureView::misuse(
                        "expected an integer in slots, got "@ + written_at(written, n - 1),
                    ),
                ),
                Some(slot) => if slot < 0 || slot >= count {
                    Err(out_of_range_of(slot as int, count))
                } else if slots.contains(slot as int) {
                    Err(FailureView::misuse("slot "@ + dec(slot as int) + " is listed twice"@))
                } else {
                    Ok(slots.push(slot as int))
                },
            },
        }
    }
}

proof fn a_wrong_slot_stays_wrong(items: Seq<Doc>, written: Seq<String>, count: int, n: int, m: int)
    requires
        0 <= n <= m,
        drag_slots_of(items, written, count, n) is Err,
    ensures
        drag_slots_of(items, written, count, m) == drag_slots_of(items, written, count, n),
    decreases m - n,
{
    if n < m {
        a_wrong_slot_stays_wrong(items, written, count, n, m - 1);
    }
}

fn slot_listed(slots: &Vec<usize>, slot: usize) -> (r: bool)
    ensures
        r == crate::hud::ints(slots@).contains(slot as int),
{
    let mut i: usize = 0;
    while i < slots.len()
        invariant
            i <= slots@.len(),
            forall|k: int| 0 <= k < i ==> slots@[k] != slot,
        decreases slots@.len() - i,
    {
        if slots[i] == slot {
            proof {
                assert(crate::hud::ints(slots@)[i as int] == slot as int);
            }
            return true;
        }
        i += 1;
    }
    proof {
        assert forall|k: int| 0 <= k < slots@.len() implies crate::hud::ints(slots@)[k]
            != slot as int by {
            assert(slots@[k] != slot);
        }
    }
    false
}

/// The slots of a drag, with each element of the list as it is written. A slot named twice is
/// refused because the menu keeps a set: the second mention would be ignored there and still show up
/// here as a slot the drag reached twice.
pub fn drag_slots(args: &Json, written: &Vec<String>, count: usize) -> (r: Result<
    Vec<usize>,
    Failure,
>)
    requires
        count <= i64::MAX,
    ensures
        ({
            let want = match args@.items_at("slots"@) {
                Some(items) => if items.len() > 0 {
                    drag_slots_of(items, written@, count as int, items.len() as int)
                } else {
                    Err(FailureView::misuse("expected a non-empty array of slots"@))
                },
                None => Err(FailureView::misuse("expected a non-empty array of slots"@)),
            };
            match r {
                Ok(slots) => want == Ok::<Seq<int>, FailureView>(crate::hud::ints(slots@)),
                Err(failure) => want == Err::<Seq<int>, FailureView>(failure@),
            }
        }),
{
    let none: Vec<Json> = Vec::new();
    let list: &Vec<Json> = match args.items_at("slots") {
        Some(list) => list,
        None => &none,
    };
    if list.len() == 0 {
        return Err(Failure::bad_args("expected a non-empty array of slots".to_owned()));
    }
    let ghost items = docs(list@);
    let mut slots: Vec<usize> = Vec::new();
    let mut i: usize = 0;
    proof {
        reveal_strlit("");
        assert(""@ =~= Seq::empty());
        assert(crate::hud::ints(slots@) =~= Seq::empty());
    }
    while i < list.len()
        invariant
            i <= list@.len(),
            list@.len() > 0,
            count <= i64::MAX,
            items == docs(list@),
            args@.items_at("slots"@) == Some(items),
            ""@ == Seq::<char>::empty(),
            drag_slots_of(items, written@, count as int, i as int) == Ok::<Seq<int>, FailureView>(
                crate::hud::ints(slots@),
            ),
        decreases list@.len() - i,
    {
        proof {
            assert(items[i as int] == list@[i as int]@);
        }
        let whole: Option<i64> = match &list[i] {
            Json::Number(number) => match number {
                Number::Whole(n) => Some(*n),
                Number::Large(_) => Some(i64::MAX),
                Number::Fraction(f) => f.whole,
            },
            _ => None,
        };
        let slot: i64 = match whole {
            Some(slot) => slot,
            None => {
                let got: &str = if i < written.len() {
                    written[i].as_str()
                } else {
                    ""
                };
                proof {
                    a_wrong_slot_stays_wrong(
                        items,
                        written@,
                        count as int,
                        i as int + 1,
                        items.len() as int,
                    );
                }
                return Err(
                    Failure::bad_args(cat2("expected an integer in slots, got ", got)),
                );
            },
        };
        if slot < 0 || slot >= count as i64 {
            proof {
                a_wrong_slot_stays_wrong(
                    items,
                    written@,
                    count as int,
                    i as int + 1,
                    items.len() as int,
                );
            }
            return Err(out_of_range(slot, count));
        }
        if slot_listed(&slots, slot as usize) {
            proof {
                a_wrong_slot_stays_wrong(
                    items,
                    written@,
                    count as int,
                    i as int + 1,
                    items.len() as int,
                );
            }
            return Err(
                Failure::bad_args(cat3("slot ", signed(slot).as_str(), " is listed twice")),
            );
        }
        let ghost before = slots@;
        slots.push(slot as usize);
        proof {
            assert(crate::hud::ints(slots@) =~= crate::hud::ints(before).push(slot as int));
        }
        i += 1;
    }
    Ok(slots)
}

/// The slots of a drag are slots of the window, and none is named twice.
pub proof fn a_drag_names_each_slot_once(items: Seq<Doc>, written: Seq<String>, count: int, n: int)
    ensures
        drag_slots_of(items, written, count, n) matches Ok(slots) ==> slots.no_duplicates()
            && forall|i: int| 0 <= i < slots.len() ==> 0 <= #[trigger] slots[i] < count,
    decreases n,
{
    if n > 0 {
        a_drag_names_each_slot_once(items, written, count, n - 1);
    }
}

/// What a drag did to a slot.
pub open spec fn dragged_doc(slot: int, before: Option<Stack>, after: Option<Stack>) -> Doc {
    Doc::object().with("slot"@, Doc::number(slot)).with("before"@, held_of(before)).with(
        "after"@,
        held_of(after),
    )
}

/// What a drag is answered: each slot with what it held before and after, and the cursor likewise.
pub fn dragged(
    button: &str,
    slots: &Vec<usize>,
    before: &Vec<Option<Stack>>,
    after: &Vec<Option<Stack>>,
    carried: &Option<Stack>,
    cursor: &Option<Stack>,
) -> (r: Answer)
    requires
        before@.len() == slots@.len(),
        after@.len() == slots@.len(),
    ensures
        r@ == AnswerView::full(
            "drag-slots"@,
            Doc::object().with("button"@, Doc::Text(button@)).with(
                "slots"@,
                Doc::list(
                    Seq::new(
                        slots@.len(),
                        |i: int| dragged_doc(slots@[i] as int, before@[i], after@[i]),
                    ),
                ),
            ).with("carried"@, held_of(*carried)).with("cursor"@, held_of(*cursor)),
        ),
{
    let mut list: Vec<Json> = Vec::new();
    let mut i: usize = 0;
    let ghost want = Seq::new(
        slots@.len(),
        |i: int| dragged_doc(slots@[i] as int, before@[i], after@[i]),
    );
    while i < slots.len()
        invariant
            i <= slots@.len(),
            before@.len() == slots@.len(),
            after@.len() == slots@.len(),
            list@.len() == i,
            forall|k: int|
                0 <= k < i ==> (#[trigger] list@[k])@ == dragged_doc(
                    slots@[k] as int,
                    before@[k],
                    after@[k],
                ),
        decreases slots@.len() - i,
    {
        list.push(
            Json::object().with("slot", Json::count(slots[i] as u64)).with(
                "before",
                held(&before[i]),
            ).with("after", held(&after[i])),
        );
        i += 1;
    }
    proof {
        assert(docs(list@) =~= want);
    }
    Answer::data(
        "drag-slots".to_owned(),
        Json::object().with("button", Json::text(button)).with("slots", Json::list(list)).with(
            "carried",
            held(carried),
        ).with("cursor", held(cursor)),
    )
}

/// What drop-held-item drops: the stack of a slot, or what the cursor carries.
pub open spec fn dropping_of(args: Doc, count: int) -> Result<Option<int>, FailureView> {
    match given(args, "slot"@) {
        Doc::Null => Ok(None),
        _ => match integer_of(args, "slot"@, (-1) as i64) {
            Err(failure) => Err(failure),
            Ok(index) => if index < 0 || index >= count {
                Err(out_of_range_of(index as int, count))
            } else {
                Ok(Some(index as int))
            },
        },
    }
}

/// What drop-held-item drops. The cursor is emptied by clicking outside the window with the whole
/// stack; a named slot is thrown from, which needs no trip through the cursor.
pub fn dropping(args: &Json, count: usize) -> (r: Result<Option<usize>, Failure>)
    requires
        count <= i64::MAX,
    ensures
        match r {
            Ok(slot) => dropping_of(args@, count as int) == Ok::<Option<int>, FailureView>(
                match slot {
                    Some(slot) => Some(slot as int),
                    None => None,
                },
            ),
            Err(failure) => dropping_of(args@, count as int) == Err::<Option<int>, FailureView>(
                failure@,
            ),
        },
{
    match args.get("slot") {
        None => Ok(None),
        Some(Json::Null) => Ok(None),
        Some(_) => {
            let index: i64 = match integer(args, "slot", -1) {
                Ok(n) => n,
                Err(failure) => {
                    return Err(failure);
                },
            };
            if index < 0 || index >= count as i64 {
                return Err(out_of_range(index, count));
            }
            Ok(Some(index as usize))
        },
    }
}

/// What drop-held-item answers. Nothing to drop is a state: it travels as nothing dropped.
pub fn dropped(slot: Option<usize>, stack: &Option<Stack>) -> (r: Answer)
    ensures
        r@ == AnswerView::full(
            "drop-held-item"@,
            Doc::object().with(
                "slot"@,
                match slot {
                    Some(slot) => Doc::number(slot as int),
                    None => Doc::Null,
                },
            ).with("dropped"@, held_of(*stack)),
        ),
{
    let at = match slot {
        Some(slot) => Json::count(slot as u64),
        None => Json::Null,
    };
    Answer::data(
        "drop-held-item".to_owned(),
        Json::object().with("slot", at).with("dropped", held(stack)),
    )
}

/// The blocks that are containers.
pub open spec fn container_blocks() -> Seq<Seq<char>> {
    seq![
        "chest"@,
        "trapped_chest"@,
        "ender_chest"@,
        "barrel"@,
        "hopper"@,
        "dispenser"@,
        "dropper"@,
        "shulker_box"@,
    ]
}

pub open spec fn is_container(name: Seq<char>) -> bool {
    container_blocks().contains(name) || ends(name, "_shulker_box"@)
}

/// Whether a block is one of the containers the other kinds of bot also accept. A block a plugin
/// opens a menu from is activate-block and wait-for-window.
pub fn use_container(block: &str, at: BlockPos) -> (r: Result<(), Failure>)
    ensures
        match r {
            Ok(()) => is_container(bare(block@)),
            Err(failure) => !is_container(bare(block@)) && failure@ == FailureView::refusal(
                "NOT_A_CONTAINER"@,
                written_of(at) + " holds "@ + bare(block@) + ", not a container"@,
            ),
        },
{
    let name: &str = plain(block);
    let known: [&'static str; 8] = [
        "chest",
        "trapped_chest",
        "ender_chest",
        "barrel",
        "hopper",
        "dispenser",
        "dropper",
        "shulker_box",
    ];
    proof {
        assert(literals(known@) =~= container_blocks());
    }
    let mut i: usize = 0;
    while i < 8
        invariant
            i <= 8,
            name@ == bare(block@),
            literals(known@) == container_blocks(),
            forall|k: int| 0 <= k < i ==> #[trigger] container_blocks()[k] != name@,
        decreases 8 - i,
    {
        proof {
            assert(literals(known@)[i as int] == known@[i as int]@);
        }
        if same(name, known[i]) {
            proof {
                assert(container_blocks()[i as int] == name@);
            }
            return Ok(());
        }
        i += 1;
    }
    if ends_with(name, "_shulker_box") {
        return Ok(());
    }
    Err(
        Failure::refused(
            "NOT_A_CONTAINER",
            cat4(written(at).as_str(), " holds ", name, ", not a container"),
        ),
    )
}

/// What open-container answers of the window that opened.
pub fn opened_container(window: &Window) -> (r: Answer)
    ensures
        r@ == AnswerView::full("window "@ + quoted(window.title@.words()), window_doc(*window)),
{
    Answer::data(
        cat2("window ", quote(window.title.words().as_str()).as_str()),
        describe(window),
    )
}

/// What is said when a container was clicked and no window opened. Nothing opening is a refusal and
/// not a state: the caller named a container and asked what is in it.
pub fn no_window_opened(at: BlockPos) -> (r: Failure)
    ensures
        r@ == FailureView::refusal(
            "NO_WINDOW_OPENED"@,
            "the container at "@ + written_of(at)
                + " was clicked but no window opened within 5s"@,
        ),
{
    Failure::refused(
        "NO_WINDOW_OPENED",
        cat3(
            "the container at ",
            written(at).as_str(),
            " was clicked but no window opened within 5s",
        ),
    )
}

/// A screen with no title of its own, closed: the book screen has none, and neither does a lectern's.
pub open spec fn untitled_doc(screen: Seq<char>) -> Doc {
    Doc::object().with("closed"@, Doc::Text(Seq::empty())).with(
        "closedComponent"@,
        Doc::Text(Seq::empty()),
    ).with("screen"@, Doc::Text(screen))
}

pub fn untitled(screen: &str) -> (r: Answer)
    ensures
        r@ == AnswerView::full("close-window"@, untitled_doc(screen@)),
{
    proof {
        reveal_strlit("");
        assert(""@ =~= Seq::empty());
    }
    Answer::data(
        "close-window".to_owned(),
        Json::object().with("closed", Json::text("")).with("closedComponent", Json::text("")).with(
            "screen",
            Json::text(screen),
        ),
    )
}

/// A titled screen, closed.
pub fn closed(title: &str, component: Json, screen: Option<&str>) -> (r: Answer)
    ensures
        r@ == AnswerView::full(
            "close-window"@,
            Doc::object().with("closed"@, Doc::Text(title@)).with(
                "closedComponent"@,
                component@,
            ).with(
                "screen"@,
                match screen {
                    Some(screen) => Doc::Text(screen@),
                    None => Doc::Null,
                },
            ),
        ),
{
    let name = match screen {
        Some(screen) => Json::text(screen),
        None => Json::Null,
    };
    Answer::data(
        "close-window".to_owned(),
        Json::object().with("closed", Json::text(title)).with("closedComponent", component).with(
            "screen",
            name,
        ),
    )
}

/// Asking to close nothing is a no-op, not a mistake.
pub fn closed_nothing() -> (r: Answer)
    ensures
        r@ == AnswerView::full(
            "close-window"@,
            Doc::object().with("closed"@, Doc::Null).with("screen"@, Doc::Null),
        ),
{
    Answer::data(
        "close-window".to_owned(),
        Json::object().with("closed", Json::Null).with("screen", Json::Null),
    )
}

/// What is on screen that close-window may close.
#[derive(Clone, Copy)]
pub struct OnScreen {
    pub credits: bool,
    pub book: bool,
    /// A dialog, and whether it closes on Escape.
    pub dialog: Option<bool>,
    pub editor: bool,
    pub window: Option<Menu>,
}

/// What close-window closes.
#[derive(Clone, Copy, Debug, PartialEq, Eq, Structural)]
pub enum Closing {
    /// Escape on the credits is a respawn, which is what takes the player out of the End.
    Credits,
    /// A book is drawn over the world rather than as a menu, and closing it tells the server nothing.
    Book,
    /// A dialog, with its exit button run.
    Dialog,
    /// A dialog that does not close on Escape.
    Stays,
    Editor,
    Lectern,
    Window,
    Nothing,
}

/// What close-window closes: the topmost of what is drawn. The credits first, over whatever was
/// open; a dialog over any window.
pub fn closing(on: OnScreen) -> (r: Closing)
    ensures
        r == if on.credits {
            Closing::Credits
        } else if on.book {
            Closing::Book
        } else if on.dialog == Some(true) {
            Closing::Dialog
        } else if on.dialog == Some(false) {
            Closing::Stays
        } else if on.editor {
            Closing::Editor
        } else if on.window == Some(Menu::Lectern) {
            Closing::Lectern
        } else if on.window is Some {
            Closing::Window
        } else {
            Closing::Nothing
        },
{
    if on.credits {
        return Closing::Credits;
    }
    if on.book {
        return Closing::Book;
    }
    match on.dialog {
        Some(closes) => {
            return if closes {
                Closing::Dialog
            } else {
                Closing::Stays
            };
        },
        None => {},
    }
    if on.editor {
        return Closing::Editor;
    }
    match on.window {
        Some(menu) => if menu == Menu::Lectern {
            Closing::Lectern
        } else {
            Closing::Window
        },
        None => Closing::Nothing,
    }
}

pub fn stays_open() -> (r: Failure)
    ensures
        r@ == FailureView::refusal(
            "SCREEN_STAYS_OPEN"@,
            "the dialog does not close on Escape, so it is not closed from here either."@,
        ),
{
    Failure::refused(
        "SCREEN_STAYS_OPEN",
        "the dialog does not close on Escape, so it is not closed from here either.".to_owned(),
    )
}

/// What wait-for-window waits for: the pattern its title has to match, where one is asked for, and
/// how long.
pub struct Awaited {
    pub pattern: Option<Pattern>,
    pub source: Option<String>,
    pub timeout_ms: i64,
}

pub open spec fn source_of(args: Doc) -> Result<Option<Seq<char>>, FailureView> {
    match given(args, "titlePattern"@) {
        Doc::Null => Ok(None),
        _ => match text_of(args, "titlePattern"@) {
            Ok(source) => Ok(Some(source)),
            Err(failure) => Err(failure),
        },
    }
}

pub open spec fn awaited_of(args: Doc) -> Result<(Option<Seq<char>>, i64), FailureView> {
    match source_of(args) {
        Err(failure) => Err(failure),
        Ok(source) => match integer_of(args, "timeoutMs"@, 10_000) {
            Err(failure) => Err(failure),
            Ok(timeout_ms) => match source {
                Some(expression) => match expression_fault(expression) {
                    Some(invalid) => Err(
                        FailureView::misuse(
                            "\""@ + expression + "\" is not a valid regular expression: "@ + invalid,
                        ),
                    ),
                    None => Ok((source, timeout_ms)),
                },
                None => Ok((None, timeout_ms)),
            },
        },
    }
}

impl Awaited {
    pub open spec fn expression(&self) -> Option<Seq<char>> {
        match self.source {
            Some(source) => Some(source@),
            None => None,
        }
    }

    pub open spec fn valid(&self) -> bool {
        match self.pattern {
            Some(pattern) => self.expression() == Some(pattern.expression()),
            None => self.expression() is None,
        }
    }

    pub fn parse(args: &Json) -> (r: Result<Awaited, Failure>)
        ensures
            match r {
                Ok(awaited) => awaited.valid() && awaited_of(args@) == Ok::<
                    (Option<Seq<char>>, i64),
                    FailureView,
                >((awaited.expression(), awaited.timeout_ms)),
                Err(failure) => awaited_of(args@) == Err::<
                    (Option<Seq<char>>, i64),
                    FailureView,
                >(failure@),
            },
    {
        let source: Option<String> = match args.get("titlePattern") {
            None => None,
            Some(Json::Null) => None,
            Some(_) => match text(args, "titlePattern") {
                Ok(source) => Some(source.to_owned()),
                Err(failure) => {
                    return Err(failure);
                },
            },
        };
        let timeout_ms: i64 = match integer(args, "timeoutMs", 10_000) {
            Ok(n) => n,
            Err(failure) => {
                return Err(failure);
            },
        };
        let pattern = match &source {
            Some(expression) => match Pattern::new(expression.as_str()) {
                Ok(pattern) => Some(pattern),
                Err(invalid) => {
                    return Err(
                        Failure::bad_args(
                            cat4(
                                "\"",
                                expression.as_str(),
                                "\" is not a valid regular expression: ",
                                invalid.as_str(),
                            ),
                        ),
                    );
                },
            },
            None => None,
        };
        Ok(Awaited { pattern, source, timeout_ms })
    }

    /// Whether a title is one that is waited for.
    pub open spec fn wants(&self, title: Seq<char>) -> bool {
        self.expression() matches Some(expression) ==> expression_found(expression, title)
    }

    /// The window that is waited for, once it is filled.
    pub fn found<'a>(&self, window: Option<&'a Window>, contents: Option<i32>) -> (r: Option<
        &'a Window,
    >)
        requires
            self.valid(),
        ensures
            match r {
                Some(shown) => window == Some(shown) && shown.menu != Menu::Lectern && contents
                    == Some(shown.id) && self.wants(shown.title@.words()),
                None => window matches Some(shown) ==> shown.menu == Menu::Lectern || contents
                    != Some(shown.id) || !self.wants(shown.title@.words()),
            },
    {
        match filled(window, contents) {
            Some(shown) => {
                let matches: bool = match &self.pattern {
                    Some(pattern) => pattern.is_match(shown.title.words().as_str()),
                    None => true,
                };
                if matches {
                    Some(shown)
                } else {
                    None
                }
            },
            None => None,
        }
    }

    /// Whether the waiting is over: the window is there, or the time is up.
    pub fn over(&self, found: bool, elapsed_ms: u64) -> (r: bool)
        ensures
            r == (found || (self.timeout_ms >= 0 && elapsed_ms >= self.timeout_ms)),
    {
        found || (self.timeout_ms >= 0 && elapsed_ms >= self.timeout_ms as u64)
    }

    /// What wait-for-window answers. Nothing opening in time is a state and not a timeout: the
    /// call's own deadline is that.
    pub fn answer(&self, window: Option<&Window>) -> (r: Answer)
        ensures
            r@ == AnswerView::full(
                match window {
                    Some(_) => "window opened"@,
                    None => "nothing opened within "@ + dec(self.timeout_ms as int) + "ms"@,
                },
                Doc::object().with(
                    "titlePattern"@,
                    match self.expression() {
                        Some(source) => Doc::Text(source),
                        None => Doc::Null,
                    },
                ).with("timeoutMs"@, Doc::number(self.timeout_ms as int)).with(
                    "window"@,
                    match window {
                        Some(window) => window_doc(*window),
                        None => Doc::Null,
                    },
                ),
            ),
    {
        let source = match &self.source {
            Some(source) => Json::Text(source.clone()),
            None => Json::Null,
        };
        let summary = match window {
            Some(_) => "window opened".to_owned(),
            None => cat3("nothing opened within ", signed(self.timeout_ms).as_str(), "ms"),
        };
        let shown = match window {
            Some(window) => describe(window),
            None => Json::Null,
        };
        Answer::data(
            summary,
            Json::object().with("titlePattern", source).with(
                "timeoutMs",
                Json::number(self.timeout_ms),
            ).with("window", shown),
        )
    }
}

/// What a packet changes of the window: what of it was filled, the state it is in, and the cursor.
pub enum Arrival {
    /// A window opens, and its contents have not arrived.
    Opened,
    /// The whole of a window arrived.
    Filled { id: i32, state: u32, cursor: Option<Stack> },
    /// The cursor alone.
    Cursor(Option<Stack>),
}

/// What the client keeps of the window that is open.
pub struct Held {
    pub id: i32,
    pub state: u32,
    pub cursor: Option<Stack>,
    /// The window the server last sent the whole of, or `None` once a new one has opened and its
    /// contents have not arrived.
    pub contents: Option<i32>,
}

/// Take an arrival in. A full window brings the state id and the cursor with it, for the window that
/// is open; a click would go out with a stale state id, and the cursor a tool read would be a guess.
pub fn received(kept: &mut Held, arrival: Arrival)
    ensures
        *final(kept) == match arrival {
            Arrival::Opened => Held { contents: None, ..*old(kept) },
            Arrival::Filled { id, state, cursor } => if old(kept).id == id {
                Held { state, cursor, contents: Some(id), ..*old(kept) }
            } else {
                Held { contents: Some(id), ..*old(kept) }
            },
            Arrival::Cursor(cursor) => Held { cursor, ..*old(kept) },
        },
{
    match arrival {
        Arrival::Opened => {
            kept.contents = None;
        },
        Arrival::Filled { id, state, cursor } => {
            if kept.id == id {
                kept.state = state;
                kept.cursor = cursor;
            }
            kept.contents = Some(id);
        },
        Arrival::Cursor(cursor) => {
            kept.cursor = cursor;
        },
    }
}

/// What each mode of a click sends. A click is a pick-up, or a move where shift is held, with button 0
/// on the left and 1 on the right. A swap's button is the key less one, or 40 for the off-hand. A
/// throw's is 0 for one item and 1 for the stack. The other two have button 0.
pub proof fn each_mode_sends_its_own_click(
    mode: Seq<char>,
    button: Seq<char>,
    shift: bool,
    hotbar: i64,
)
    ensures
        mode == "click"@ && hotbar == 0 ==> (input_of(mode, button, shift, hotbar) matches Ok((click, key))
            && click == (if shift {
            ClickType::QuickMove
        } else {
            ClickType::Pickup
        }) && key == (if button == "right"@ {
            1int
        } else {
            0int
        })),
        mode != "click"@ && (shift || button != "left"@) ==> (input_of(mode, button, shift, hotbar) matches Err(
            failure,
        ) && failure.code == "BAD_ARGS"@),
        mode == "swap-hotbar"@ && button == "left"@ && !shift && 1 <= hotbar <= 9 ==> input_of(
            mode,
            button,
            shift,
            hotbar,
        ) == Ok::<(ClickType, int), FailureView>((ClickType::Swap, hotbar - 1)),
        mode == "swap-hotbar"@ && hotbar == 0 ==> input_of(mode, button, shift, hotbar) is Err,
        mode != "swap-hotbar"@ && hotbar != 0 ==> input_of(mode, button, shift, hotbar) is Err,
        mode == "swap-offhand"@ && button == "left"@ && !shift && hotbar == 0 ==> input_of(
            mode,
            button,
            shift,
            hotbar,
        ) == Ok::<(ClickType, int), FailureView>((ClickType::Swap, 40)),
        mode == "throw-one"@ && button == "left"@ && !shift && hotbar == 0 ==> input_of(
            mode,
            button,
            shift,
            hotbar,
        ) == Ok::<(ClickType, int), FailureView>((ClickType::Throw, 0)),
        mode == "throw-stack"@ && button == "left"@ && !shift && hotbar == 0 ==> input_of(
            mode,
            button,
            shift,
            hotbar,
        ) == Ok::<(ClickType, int), FailureView>((ClickType::Throw, 1)),
        mode == "pickup-all"@ && button == "left"@ && !shift && hotbar == 0 ==> input_of(
            mode,
            button,
            shift,
            hotbar,
        ) == Ok::<(ClickType, int), FailureView>((ClickType::PickupAll, 0)),
        mode == "clone"@ && button == "left"@ && !shift && hotbar == 0 ==> input_of(
            mode,
            button,
            shift,
            hotbar,
        ) == Ok::<(ClickType, int), FailureView>((ClickType::Clone, 0)),
        ![
            "click"@,
            "swap-hotbar"@,
            "swap-offhand"@,
            "throw-one"@,
            "throw-stack"@,
            "pickup-all"@,
            "clone"@,
        ]@.contains(mode) ==> input_of(mode, button, shift, hotbar) is Err,
        OFF_HAND == 40,
        OUTSIDE == -999,
{
    reveal_strlit("click");
    reveal_strlit("swap-hotbar");
    reveal_strlit("swap-offhand");
    reveal_strlit("throw-one");
    reveal_strlit("throw-stack");
    reveal_strlit("pickup-all");
    reveal_strlit("clone");
    reveal_strlit("left");
    reveal_strlit("right");
    assert("click"@.len() == 5);
    assert("swap-hotbar"@.len() == 11);
    assert("swap-offhand"@.len() == 12);
    assert("throw-one"@.len() == 9);
    assert("throw-stack"@.len() == 11);
    assert("pickup-all"@.len() == 10);
    assert("clone"@.len() == 5);
    assert("left"@.len() == 4);
    assert("right"@.len() == 5);
    assert("click"@[2] != "clone"@[2]);
    assert("click"@[0] != "right"@[0]);
    assert("swap-hotbar"@[0] != "throw-stack"@[0]);
    assert("clone"@[0] != "right"@[0]);
    let all = [
        "click"@,
        "swap-hotbar"@,
        "swap-offhand"@,
        "throw-one"@,
        "throw-stack"@,
        "pickup-all"@,
        "clone"@,
    ]@;
    assert(all[0] == "click"@ && all[1] == "swap-hotbar"@ && all[2] == "swap-offhand"@ && all[3]
        == "throw-one"@ && all[4] == "throw-stack"@ && all[5] == "pickup-all"@ && all[6]
        == "clone"@);
}

/// A click lands on the slot it names, where there is one, or outside the window where it says so.
pub proof fn a_click_lands_where_it_says(args: ClickArgsView, count: int)
    ensures
        args.outside && args.slot < 0 && args.mode == "click"@ && !args.shift ==> landing_of(
            args,
            count,
        ) == Ok::<LandingView, FailureView>(
            LandingView::Outside(
                if args.button == "right"@ {
                    1
                } else {
                    0
                },
            ),
        ),
        args.outside && (args.slot >= 0 || args.mode != "click"@ || args.shift) ==> landing_of(
            args,
            count,
        ) is Err,
        !args.outside && args.slot < 0 ==> landing_of(args, count) is Err,
        !args.outside && args.slot >= count && args.slot >= 0 ==> (landing_of(args, count) matches Err(
            failure,
        ) && failure.code == "SLOT_OUT_OF_RANGE"@),
        !args.outside && 0 <= args.slot < count ==> match input_of(
            args.mode,
            args.button,
            args.shift,
            args.hotbar,
        ) {
            Ok((click, key)) => landing_of(args, count) == Ok::<LandingView, FailureView>(
                LandingView::Slot(args.slot as int, click, key),
            ),
            Err(failure) => landing_of(args, count) == Err::<LandingView, FailureView>(failure),
        },
{
}

/// What is told of a window: its title, its kind, and how its slots are shared between the container
/// and the player, whose own are the last 36.
pub proof fn a_window_is_told_as_it_stands(window: Window)
    ensures
        ({
            let told = window_doc(window);
            let count = window.slots@.len() as int;
            &&& told.text_at("title"@) == Some(window.title@.words())
            &&& told.at("titleComponent"@) == Some(window.title@)
            &&& told.text_at("type"@) == Some(kind_name(window.menu))
            &&& told.at("slotCount"@) == Some(Doc::number(count))
            &&& told.items_at("filled"@) == Some(filled_slots(window.slots@))
            &&& count > 36 ==> told.items_at("containerSlots"@) == Some(
                seq![Doc::number(0), Doc::number(count - 37)],
            )
            &&& count >= 36 ==> told.items_at("inventorySlots"@) == Some(
                seq![Doc::number(count - 36), Doc::number(count - 1)],
            )
        }),
{
    broadcast use {a_field_reads_back, an_empty_object_has_nothing};
    reveal_strlit("title");
    reveal_strlit("titleComponent");
    reveal_strlit("type");
    reveal_strlit("slotCount");
    reveal_strlit("containerSlots");
    reveal_strlit("inventorySlots");
    reveal_strlit("filled");
    assert("title"@.len() == 5);
    assert("titleComponent"@.len() == 14);
    assert("type"@.len() == 4);
    assert("slotCount"@.len() == 9);
    assert("containerSlots"@.len() == 14);
    assert("inventorySlots"@.len() == 14);
    assert("filled"@.len() == 6);
    assert("titleComponent"@[0] != "containerSlots"@[0]);
    assert("titleComponent"@[0] != "inventorySlots"@[0]);
    assert("containerSlots"@[0] != "inventorySlots"@[0]);
}

/// Every slot that holds something is told with its number, in order, and no empty one.
pub proof fn a_filled_slot_is_told_with_its_number(slots: Seq<Option<Stack>>)
    requires
        slots.len() > 0,
    ensures
        slots.last() is None ==> filled_slots(slots) == filled_slots(slots.drop_last()),
        slots.last() matches Some(stack) ==> {
            let told = filled_slots(slots);
            &&& told.len() == filled_slots(slots.drop_last()).len() + 1
            &&& told.drop_last() == filled_slots(slots.drop_last())
            &&& told.last().at("slot"@) == Some(Doc::number(slots.len() - 1))
            &&& told.last().text_at("name"@) == Some(stack.name@)
            &&& told.last().at("count"@) == Some(Doc::number(stack.count as int))
        },
{
    broadcast use {a_field_reads_back, an_empty_object_has_nothing};
    reveal_strlit("name");
    reveal_strlit("count");
    reveal_strlit("label");
    reveal_strlit("labelComponent");
    reveal_strlit("lore");
    reveal_strlit("loreComponents");
    reveal_strlit("slot");
    assert("name"@.len() == 4);
    assert("count"@.len() == 5);
    assert("label"@.len() == 5);
    assert("labelComponent"@.len() == 14);
    assert("lore"@.len() == 4);
    assert("loreComponents"@.len() == 14);
    assert("slot"@.len() == 4);
    assert("name"@[0] != "lore"@[0]);
    assert("name"@[0] != "slot"@[0]);
    assert("count"@[0] != "label"@[0]);
    assert("labelComponent"@[1] != "loreComponents"@[1]);
    assert("lore"@[0] != "slot"@[0]);
    if let Some(stack) = slots.last() {
        assert(filled_slots(slots).drop_last() =~= filled_slots(slots.drop_last()));
    }
}

/// A drag is told slot by slot, and a swap stack by stack, before and after.
pub proof fn before_and_after_are_told_apart(
    slot: int,
    before: Option<Stack>,
    after: Option<Stack>,
    screen: Seq<char>,
)
    ensures
        dragged_doc(slot, before, after).at("slot"@) == Some(Doc::number(slot)),
        dragged_doc(slot, before, after).at("before"@) == Some(held_of(before)),
        dragged_doc(slot, before, after).at("after"@) == Some(held_of(after)),
        swap_doc(Some((before, after))).at("before"@) == Some(held_of(before)),
        swap_doc(Some((before, after))).at("after"@) == Some(held_of(after)),
        swap_doc(None) == Doc::Null,
        untitled_doc(screen).text_at("screen"@) == Some(screen),
{
    broadcast use {a_field_reads_back, an_empty_object_has_nothing};
    reveal_strlit("slot");
    reveal_strlit("before");
    reveal_strlit("after");
    reveal_strlit("closed");
    reveal_strlit("closedComponent");
    reveal_strlit("screen");
    assert("slot"@.len() == 4);
    assert("before"@.len() == 6);
    assert("after"@.len() == 5);
    assert("closed"@.len() == 6);
    assert("closedComponent"@.len() == 15);
    assert("screen"@.len() == 6);
    assert("before"@[0] != "closed"@[0]);
    assert("before"@[0] != "screen"@[0]);
    assert("closed"@[0] != "screen"@[0]);
}

/// A drag with the left button shares the stack out, with the right puts one in each, with the middle
/// fills each; it starts and ends outside the window and names each slot in between, in order.
pub proof fn a_drag_starts_and_ends_outside(slots: Seq<usize>, kind: int, i: int)
    requires
        0 <= kind < 3,
        0 <= i < slots.len(),
    ensures
        drag_kind_of("left"@) == Ok::<int, FailureView>(0),
        drag_kind_of("right"@) == Ok::<int, FailureView>(1),
        drag_kind_of("middle"@) == Ok::<int, FailureView>(2),
        ({
            let clicks = drag_clicks_of(slots, kind);
            &&& clicks.len() == slots.len() + 2
            &&& clicks[0].slot is None && clicks[0].button == 4 * kind
            &&& clicks[i + 1].slot == Some(slots[i]) && clicks[i + 1].button == 4 * kind + 1
            &&& clicks.last().slot is None && clicks.last().button == 4 * kind + 2
        }),
{
    reveal_strlit("left");
    reveal_strlit("right");
    reveal_strlit("middle");
    assert("left"@.len() == 4);
    assert("right"@.len() == 5);
    assert("middle"@.len() == 6);
}

/// What is dropped is the cursor where no slot is named, and the slot that is where there is one.
pub proof fn what_is_dropped_is_named(args: Doc, count: int, n: i64)
    ensures
        args.at("slot"@) is None ==> dropping_of(args, count) == Ok::<Option<int>, FailureView>(None),
        args.at("slot"@) == Some(Doc::Number(Number::Whole(n))) && 0 <= n < count ==> dropping_of(
            args,
            count,
        ) == Ok::<Option<int>, FailureView>(Some(n as int)),
        args.at("slot"@) == Some(Doc::Number(Number::Whole(n))) && !(0 <= n < count) ==> (dropping_of(
            args,
            count,
        ) matches Err(failure) && failure.code == "SLOT_OUT_OF_RANGE"@),
{
}

/// The blocks that open as a container, and no others.
pub proof fn these_blocks_open(name: Seq<char>)
    ensures
        name == "chest"@ || name == "trapped_chest"@ || name == "ender_chest"@ || name == "barrel"@
            || name == "hopper"@ || name == "dispenser"@ || name == "dropper"@ || name
            == "shulker_box"@ || ends(name, "_shulker_box"@) <==> is_container(name),
{
    let all = container_blocks();
    assert(all[0] == "chest"@ && all[1] == "trapped_chest"@ && all[2] == "ender_chest"@ && all[3]
        == "barrel"@ && all[4] == "hopper"@ && all[5] == "dispenser"@ && all[6] == "dropper"@
        && all[7] == "shulker_box"@);
}

/// A window that is waited for is one whose title the pattern is found in, or any where there is no
/// pattern, for ten seconds unless another time is given.
pub proof fn a_window_is_waited_for_by_its_title(args: Doc)
    ensures
        args.at("titlePattern"@) is None && args.at("timeoutMs"@) is None ==> awaited_of(args) == Ok::<
            (Option<Seq<char>>, i64),
            FailureView,
        >((None, 10_000i64)),
        args.text_at("titlePattern"@) matches Some(source) ==> (args.at("timeoutMs"@) is None
            && expression_fault(source) is None ==> awaited_of(args) == Ok::<
            (Option<Seq<char>>, i64),
            FailureView,
        >((Some(source), 10_000i64))),
        args.text_at("titlePattern"@) matches Some(source) ==> (expression_fault(source) is Some
            && args.at("timeoutMs"@) is None ==> awaited_of(args) is Err),
{
}

/// What a click is asked for, argument by argument.
pub proof fn a_click_is_what_was_given(args: Doc, made: ClickArgsView)
    requires
        click_args_of(args) == Ok::<ClickArgsView, FailureView>(made),
    ensures
        args.at("slot"@) is None ==> made.slot == -1,
        args.int_at("slot"@) matches Some(slot) ==> made.slot == slot,
        args.at("outside"@) is None ==> !made.outside,
        args.bool_at("outside"@) matches Some(outside) ==> made.outside == outside,
        args.text_at("button"@) == Some(made.button),
        args.at("shift"@) is None ==> !made.shift,
        args.bool_at("shift"@) matches Some(shift) ==> made.shift == shift,
        args.at("mode"@) is None ==> made.mode == "click"@,
        args.text_at("mode"@) matches Some(mode) ==> made.mode == mode,
        args.at("hotbar"@) is None ==> made.hotbar == 0,
        args.int_at("hotbar"@) matches Some(hotbar) ==> made.hotbar == hotbar,
{
}

/// What is held of a click reads as it is.
pub proof fn a_click_reads_as_it_is_held(args: ClickArgs)
    ensures
        args@.slot == args.slot && args@.outside == args.outside && args@.button == args.button@
            && args@.shift == args.shift && args@.mode == args.mode@ && args@.hotbar == args.hotbar,
{
}

/// The slots of a drag are the ones that were listed, in order, each within the window.
pub proof fn a_drag_goes_over_the_slots_listed(
    items: Seq<Doc>,
    written: Seq<String>,
    count: int,
    n: int,
    i: int,
)
    requires
        0 <= i < n <= items.len(),
    ensures
        drag_slots_of(items, written, count, n) matches Ok(slots) ==> slots.len() == n && 0 <= slots[i]
            < count && (items[i] matches Doc::Number(Number::Whole(slot)) ==> slots[i] == slot),
    decreases n,
{
    if i < n - 1 {
        a_drag_goes_over_the_slots_listed(items, written, count, n - 1, i);
    } else if n > 1 {
        a_drag_goes_over_the_slots_listed(items, written, count, n - 1, 0);
    }
}

/// Each menu goes by the game's own name for its type and for its screen.
pub proof fn a_menu_goes_by_its_names()
    ensures
        kind_name(Menu::Generic9x3) == "minecraft:generic_9x3"@ && kind_name(Menu::Generic9x6)
            == "minecraft:generic_9x6"@ && kind_name(Menu::Furnace) == "minecraft:furnace"@
            && kind_name(Menu::Crafting) == "minecraft:crafting"@ && kind_name(Menu::Merchant)
            == "minecraft:merchant"@ && kind_name(Menu::Anvil) == "minecraft:anvil"@ && kind_name(
            Menu::Enchantment,
        ) == "minecraft:enchantment"@ && kind_name(Menu::Stonecutter) == "minecraft:stonecutter"@
            && kind_name(Menu::Beacon) == "minecraft:beacon"@ && kind_name(Menu::Lectern)
            == "minecraft:lectern"@ && kind_name(Menu::Loom) == "minecraft:loom"@ && kind_name(
            Menu::Hopper,
        ) == "minecraft:hopper"@ && kind_name(Menu::ShulkerBox) == "minecraft:shulker_box"@
            && kind_name(Menu::Generic9x1) == "minecraft:generic_9x1"@ && kind_name(Menu::Generic9x2)
            == "minecraft:generic_9x2"@ && kind_name(Menu::Generic9x4) == "minecraft:generic_9x4"@
            && kind_name(Menu::Generic9x5) == "minecraft:generic_9x5"@ && kind_name(Menu::Generic3x3)
            == "minecraft:generic_3x3"@ && kind_name(Menu::BlastFurnace) == "minecraft:blast_furnace"@
            && kind_name(Menu::Smoker) == "minecraft:smoker"@ && kind_name(Menu::BrewingStand)
            == "minecraft:brewing_stand"@ && kind_name(Menu::Grindstone) == "minecraft:grindstone"@
            && kind_name(Menu::Smithing) == "minecraft:smithing"@ && kind_name(Menu::CartographyTable)
            == "minecraft:cartography_table"@ && kind_name(Menu::Crafter3x3)
            == "minecraft:crafter_3x3"@,
        screen_name(Menu::Generic9x3) == "ContainerScreen"@ && screen_name(Menu::Generic3x3)
            == "DispenserScreen"@ && screen_name(Menu::Furnace) == "FurnaceScreen"@ && screen_name(
            Menu::Merchant,
        ) == "MerchantScreen"@ && screen_name(Menu::Lectern) == "LecternScreen"@ && screen_name(
            Menu::Anvil,
        ) == "AnvilScreen"@ && screen_name(Menu::Beacon) == "BeaconScreen"@ && screen_name(
            Menu::Crafting,
        ) == "CraftingScreen"@ && screen_name(Menu::Stonecutter) == "StonecutterScreen"@
            && screen_name(Menu::ShulkerBox) == "ShulkerBoxScreen"@ && screen_name(Menu::Hopper)
            == "HopperScreen"@ && screen_name(Menu::Enchantment) == "EnchantmentScreen"@,
        OPEN_TICKS == 100,
        PLAYER_INVENTORY_SLOTS == 36,
{
}

/// A window is the one that is waited for where there is no pattern or its title has it.
pub proof fn a_title_is_waited_for(awaited: Awaited, title: Seq<char>)
    ensures
        awaited.source is None ==> awaited.wants(title),
        awaited.source matches Some(source) ==> (awaited.wants(title) <==> expression_found(
            source@,
            title,
        )),
{
}

} // verus!
