//! What the bot does in the world: walking, fighting, crafting, trading, carrying, talking.
use bot_azalea::calls::Failure;
use bot_azalea::json::{Fraction, Json, Number};
use bot_azalea::menus::{Allowed, Known, Offer, Offers, Recipe, RecipeDisplay, RegistryEntry, SlotDisplay};
use bot_azalea::place::{chunk_of, BlockPos};
use bot_azalea::tools::approach::{Approach, Bearing, Headway};
use bot_azalea::tools::blocks::find_args;
use bot_azalea::tools::body::{
    direction, duration, jumped, looking_at, moved as moved_for, not_dead, respawned, stance, stands, ticks_for,
    WalkDirection,
};
use bot_azalea::tools::chat::{
    all_clickable, clicked, describe as describe_clicks, message, no_such_dialog, pick as pick_click,
    press as press_click, screen as dialog_screen, sent, ClickEvent, Dialog, Part, Pressing,
};
use bot_azalea::tools::command::{
    already_there, completed, completion_args, completion_timeout, now_on, ran, refused as refuses, switch_args,
    switching, timed_out, Arriving, News, Suggestion,
};
use bot_azalea::tools::entities::{
    find_entity, gone_before_clicked, gone_before_hit, nameplates, nearby, owner, require, resolve, Assault, Distance, Kept, Move, Selector,
};
use bot_azalea::tools::hands::{
    activated, describe as in_hand, empty_hand, face, face_name, neighbour, not_loaded, opposite, placed,
    placing, use_args, used, Dig, Digging, Face, Placing,
};
use bot_azalea::tools::inventory::{
    equip_item, find_item, first_empty, given_item, giving, item, list_inventory, player_menu, put_back, wear, Equip,
};
use bot_azalea::tools::position::standing;
use bot_azalea::tools::recipes::{
    by_shortfall, can_craft, count, craftable_answer, crafted, get_recipe, held, ingredients, known,
    list_recipes, missing, nearest_table, no_such_item, nothing_gained, per_craft, plan, producing,
    result_empty, simple, stacks_of, Crafts, Look,
};
use bot_azalea::tools::stacks::Stack;
use bot_azalea::tools::trades::{choose_trade, pick, read_trades, require as require_trades, selected};
use bot_azalea::tools::walk::{gives_up, moved, not_reached, range, timeout, Setting, Stride, Walk};
use bot_azalea::tools::windows::{Menu, Window};
use bot_azalea::tools::world::{no_sky, sky, weather, world_state, Weather};
use serde_json::Value;

/// A document as the library holds one.
fn json(value: &Value) -> Json {
    match value {
        Value::Null => Json::Null,
        Value::Bool(b) => Json::Bool(*b),
        Value::Number(n) => Json::Number(number(n)),
        Value::String(text) => Json::Text(text.clone()),
        Value::Array(items) => Json::Array(items.iter().map(json).collect(), String::new()),
        Value::Object(fields) => Json::Object(
            fields.iter().map(|(name, value)| (name.clone(), json(value))).collect(),
            String::new(),
        ),
    }
}

fn number(n: &serde_json::Number) -> Number {
    if let Some(whole) = n.as_i64() {
        return Number::Whole(whole);
    }
    if let Some(large) = n.as_u64() {
        return Number::Large(large);
    }
    let f = n.as_f64().unwrap();
    Number::Fraction(Fraction {
        bits: f.to_bits(),
        whole: if f.fract() == 0.0 { Some(f as i64) } else { None },
        floor: f.floor() as i32,
        cut: f as i32,
    })
}

/// A document of the library as anybody else holds one.
fn value(json: &Json) -> Value {
    match json {
        Json::Null => Value::Null,
        Json::Bool(b) => Value::from(*b),
        Json::Number(Number::Whole(n)) => Value::from(*n),
        Json::Number(Number::Large(n)) => Value::from(*n),
        Json::Number(Number::Fraction(f)) => Value::from(f64::from_bits(f.bits)),
        Json::Text(text) => Value::from(text.as_str()),
        Json::Array(items, _) => Value::Array(items.iter().map(value).collect()),
        Json::Object(fields, _) => {
            Value::Object(fields.iter().map(|(name, field)| (name.clone(), value(field))).collect())
        }
    }
}

fn parsed(text: &str) -> Value {
    serde_json::from_str(text).unwrap()
}

fn doc(text: &str) -> Json {
    json(&parsed(text))
}

fn said<T>(outcome: Result<T, Failure>) -> (String, String) {
    match outcome {
        Ok(_) => panic!("was not refused"),
        Err(failure) => (failure.code, failure.message),
    }
}

fn refused(code: &str, message: &str) -> (String, String) {
    (code.to_owned(), message.to_owned())
}

fn owned(list: &[&str]) -> Vec<String> {
    list.iter().map(|text| (*text).to_owned()).collect()
}

fn pos(x: i32, y: i32, z: i32) -> BlockPos {
    BlockPos { x, y, z }
}

fn stack(item: u32, name: &str, count: i32) -> Stack {
    Stack {
        item,
        name: name.to_owned(),
        count,
        custom_name: None,
        item_name: None,
        lore: Vec::new(),
        enchantments: Vec::new(),
        simple: true,
    }
}

#[test]
fn a_coordinate_is_in_the_chunk_below_it() {
    assert_eq!((chunk_of(0), chunk_of(15), chunk_of(16), chunk_of(-1), chunk_of(-16), chunk_of(-17)), (0, 0, 1, -1, -1, -2));
}

#[test]
fn a_bot_stands_and_looks_and_jumps() {
    let told = standing(pos(1, -2, 3));
    assert_eq!(told.text, "standing at 1, -2, 3");
    assert_eq!(value(&told.data.unwrap()), parsed(r#"{"position": {"x": 1, "y": -2, "z": 3}}"#));
    assert_eq!(looking_at(pos(1, 2, 3)).text, "Looking at (1, 2, 3).");
    assert_eq!(jumped().text, "Jumped.");
    assert_eq!(not_dead(pos(0, 1, 2)).text, "The bot is not dead. It is at (0, 1, 2).");
    assert_eq!(respawned(pos(0, 1, 2), "overworld").text, "Respawned at (0, 1, 2) in overworld.");
}

#[test]
fn a_stance_leaves_alone_what_it_is_not_asked_for() {
    assert_eq!(
        stance(&doc(r#"{"sneak": true, "sprint": null}"#)).unwrap_or_else(|failure| panic!("{}", failure.message)),
        (Some(true), None)
    );
    assert_eq!(said(stance(&doc(r#"{"sneak": 1}"#))), refused("BAD_ARGS", "expected a boolean or null for sneak"));
    assert_eq!(stands(true, None, false, true).text, "sneaking: true, sprinting: true");
    assert_eq!(stands(false, Some(false), true, true).text, "sneaking: false, sprinting: false");
}

#[test]
fn a_way_is_walked_for_as_many_ticks_as_it_takes() {
    assert_eq!(direction("back").ok(), Some(WalkDirection::Backward));
    assert_eq!(said(direction("up")), refused("BAD_ARGS", "unknown direction up"));
    assert_eq!((ticks_for(0), ticks_for(1), ticks_for(50), ticks_for(51)), (0, 1, 1, 2));
    assert_eq!(moved_for("forward", 1000).text, "Moved forward for 1000ms.");
}

#[test]
fn a_walk_arrives_or_says_what_stopped_it() {
    let mut walk = Walk::new();
    assert!(matches!(walk.set_out(true, true), Setting::Arrived { .. }));
    let mut walk = Walk::new();
    assert!(matches!(walk.set_out(false, true), Setting::Onward { start: true }));
    let mut stuck = false;
    for _ in 0..200 {
        if matches!(walk.step(0, false, true).stride, Stride::Stuck) {
            stuck = true;
            break;
        }
    }
    assert!(stuck);
    let failure = not_reached(pos(1, 2, 3), 500, "4.5", &walk);
    assert_eq!(failure.code, "UNREACHABLE");
    assert!(failure.message.starts_with("could not reach (1, 2, 3) within 500ms; it stopped 4.5 blocks away: "));
    assert!(moved("2", pos(1, 2, 3)).text.contains("(1, 2, 3)"));
}

#[test]
fn an_approach_gives_up_on_what_it_gets_no_nearer_to() {
    let mut approach = Approach::new();
    assert!(matches!(approach.reached(true, true, false), Bearing::Reached { .. }));
    let mut approach = Approach::new();
    let mut stuck = false;
    for _ in 0..200 {
        if let Bearing::Reached { .. } = approach.reached(false, true, false) {
            panic!("reached");
        }
        if let Headway::Stuck { failure, .. } = approach.step(false, false, true, "(1, 2, 3)", "7.0") {
            assert!(failure.message.contains("(1, 2, 3)"), "{}", failure.message);
            stuck = true;
            break;
        }
    }
    assert!(stuck);
}

#[test]
fn what_a_call_leaves_out_is_filled_in() {
    let none = doc("{}");
    assert_eq!((timeout(&none), timeout(&doc(r#"{"timeoutMs": 5}"#)), timeout(&doc(r#"{"timeoutMs": -5}"#))), (60_000, 5, 60_000));
    assert_eq!(range(&doc(r#"{"range": 2}"#)).ok(), Some(Number::Whole(2)));
    assert_eq!(said(range(&none)), refused("BAD_ARGS", "expected a number for range"));
    assert_eq!((duration(&none), duration(&doc(r#"{"durationMs": 50}"#))), (1000, 50));
    assert_eq!(use_args(&none), (false, 0));
    assert_eq!(use_args(&doc(r#"{"offhand": true, "holdMs": 700}"#)), (true, 700));
    assert_eq!(completion_args(&doc(r#"{"text": "gam"}"#)).ok(), Some(("gam".to_owned(), 60, 5000)));
    assert_eq!(said(completion_args(&none)), refused("BAD_ARGS", "expected a string for text"));
    assert_eq!(
        switch_args(&doc(r#"{"target": "hub", "timeoutMs": 9}"#)).ok(),
        Some(("hub".to_owned(), "server hub".to_owned(), 9))
    );
    assert_eq!(said(switch_args(&none)), refused("BAD_ARGS", "expected a string for target"));
    assert_eq!(find_args(&doc(r#"{"blockType": "stone"}"#)).ok(), Some(("stone".to_owned(), 1)));
    assert_eq!(said(find_args(&none)), refused("BAD_ARGS", "expected a string for blockType"));
    assert_eq!(gone_before_hit().message, "the entity left the world before it was hit.");
    assert_eq!(gone_before_clicked().message, "the entity left the world before it was clicked.");
}

#[test]
fn a_walk_is_given_up_on_when_it_is_stuck_or_has_taken_too_long() {
    assert!(gives_up(Stride::Stuck, 0, 500));
    assert!(!gives_up(Stride::Walking, 500_000_000, 500));
    assert!(gives_up(Stride::Walking, 500_000_001, 500));
    assert!(!gives_up(Stride::Arrived, 900_000_000, 500));
}

#[test]
fn patience_runs_out_standing_still() {
    let mut walk = Walk::new();
    walk.set_out(false, true);
    let mut steps = 0;
    while !matches!(walk.step(0, false, true).stride, Stride::Stuck) {
        steps += 1;
    }
    assert_eq!(steps, 41);
    let mut approach = Approach::new();
    let mut steps = 0;
    while !matches!(approach.step(false, false, true, "a chest", "7.0"), Headway::Stuck { .. }) {
        steps += 1;
    }
    assert_eq!(steps, 41);
}

fn kept(handle: u64, id: i32, kind: &str, custom: Option<&str>, order: u32) -> Kept {
    Kept {
        handle,
        here: true,
        id: Some(id),
        kind: kind.to_owned(),
        custom: custom.map(Json::text),
        profile: None,
        player: false,
        mob: true,
        text: None,
        display: false,
        invisible: false,
        name_visible: custom.is_some(),
        living: true,
        dead: false,
        stand: false,
        marker: false,
        minecart: false,
        boat: false,
        interaction: false,
        at: pos(order as i32, 0, 0),
        height: 0,
        distance: Distance {
            order,
            number: Number::Whole(order as i64),
            text: format!("{order}.0"),
            in_range: true,
        },
        under: Vec::new(),
        item: Json::Null,
        block: Json::Null,
    }
}

#[test]
fn an_entity_under_two_labels_is_labelled_by_the_lower() {
    let label = |handle: u64, words: &str, order: u32, height: u64, away: u64| {
        let mut label = kept(handle, handle as i32, "text_display", None, order);
        label.text = Some(Json::text(words));
        label.display = true;
        label.living = false;
        label.height = height;
        label.under = vec![(1, away)];
        label
    };
    /* The title hangs nearer the villager and higher than the name, which is a step to the side. */
    let all = vec![
        kept(1, 11, "villager", None, 2),
        label(2, "Blacksmith", 3, 20, 90),
        label(3, "Level 4", 4, 30, 80),
        label(4, "", 5, 10, 10),
    ];
    let seen = nearby(&all);
    assert_eq!(owner(&seen[1], &seen), Some(0));
    assert_eq!(nameplates(&seen), vec![Some(1), None, None, None]);
    /* Of two as low it is the nearer. */
    let all = vec![kept(1, 11, "villager", None, 2), label(2, "Far", 3, 20, 90), label(3, "Near", 4, 20, 80)];
    assert_eq!(nameplates(&nearby(&all)), vec![Some(2), None, None]);
}

#[test]
fn entities_are_seen_nearest_first_and_found_by_name() {
    let all = vec![
        kept(1, 11, "cow", None, 9),
        kept(2, 12, "villager", Some("Blacksmith"), 4),
        kept(3, 13, "cow", None, 6),
    ];
    let seen = nearby(&all);
    let ids: Vec<Option<i32>> = seen.iter().map(|one| one.id).collect();
    assert_eq!(ids, vec![Some(12), Some(13), Some(11)]);
    assert_eq!(require(&seen, "blacksmith", "16").ok(), Some(0));
    assert_eq!(require(&seen, "cow", "16").ok(), Some(1));
    assert!(require(&seen, "pig", "16").is_err());
    assert_eq!(owner(&seen[0], &seen), None);
    let byid = Selector::of(&doc(r#"{"id": 11}"#)).unwrap_or_else(|failure| panic!("{}", failure.message));
    assert_eq!(resolve(&byid, &seen, None, "16").ok(), Some(2));
    assert!(Selector::of(&doc("{}")).is_err());
    assert!(Selector::of(&doc(r#"{"id": 11, "name": "cow"}"#)).is_err());
    assert!(find_entity(&doc(r#"{"entityType": "cow"}"#), &seen, Number::Whole(16)).is_ok());
}

#[test]
fn an_assault_ends_with_as_many_blows_as_were_asked_for() {
    let mut assault = Assault::new("cow".to_owned(), 1, false);
    let mut hit = false;
    for _ in 0..50 {
        match assault.next(true, true, true) {
            Move::Hit => {
                hit = true;
                break;
            }
            Move::Answer(answer) => panic!("{}", answer.text),
            _ => {}
        }
    }
    assert!(hit);
    assert!(assault.landed().is_some());
}

#[test]
fn a_face_is_known_by_its_name_and_looks_back() {
    assert_eq!(face("NORTH").ok(), Some(Face::North));
    assert_eq!(said(face("inside")), refused("BAD_ARGS", "unknown face inside"));
    for one in [Face::Down, Face::Up, Face::North, Face::South, Face::East, Face::West] {
        assert_eq!(neighbour(neighbour(pos(1, 2, 3), one), opposite(one)), pos(1, 2, 3));
        assert_eq!(face(face_name(one)).ok(), Some(one));
    }
}

#[test]
fn a_block_is_placed_against_a_neighbour_that_is_there() {
    let at = pos(1, 2, 3);
    let feet = pos(9, 9, 9);
    let around = ["minecraft:stone", "air", "cave_air", "air", "air", "minecraft:dirt"];
    let against = |preferred: Face| match placing(at, feet, preferred, "void_air", around) {
        Ok(Placing::Against(face)) => face,
        _ => panic!("not placed"),
    };
    assert_eq!(against(Face::West), Face::West);
    assert_eq!(against(Face::North), Face::Down);
    match placing(at, feet, Face::Up, "minecraft:stone", around) {
        Ok(Placing::Already(answer)) => assert_eq!(answer.text, "(1, 2, 3) already holds stone."),
        _ => panic!("placed"),
    }
    assert_eq!(said(placing(at, pos(1, 1, 3), Face::Up, "air", around)).0, "INSIDE_THE_BOT");
    assert_eq!(
        said(placing(at, feet, Face::Up, "air", ["air"; 6])),
        refused("NOTHING_TO_PLACE_AGAINST", "No solid block next to (1, 2, 3) to place against")
    );
    assert_eq!(empty_hand().code, "EMPTY_HAND");
    assert_eq!(placed(at, Face::Down).text, "Placed a block at (1, 2, 3) against its down face.");
    assert_eq!(not_loaded(at).code, "NOT_LOADED");
    assert_eq!(activated(at, "minecraft:lever").text, "Right-clicked lever at (1, 2, 3).");
}

#[test]
fn a_block_is_dug_till_it_is_gone_or_will_not_break() {
    match Dig::begin(pos(1, 2, 3), "minecraft:cave_air") {
        Err(answer) => assert_eq!(answer.text, "Nothing to dig at (1, 2, 3)."),
        Ok(_) => panic!("dug air"),
    }
    let mut dig = match Dig::begin(pos(1, 2, 3), "minecraft:stone") {
        Ok(dig) => dig,
        Err(answer) => panic!("{}", answer.text),
    };
    assert!(matches!(dig.look("minecraft:stone", false), Digging::Tick { start: true }));
    assert!(matches!(dig.look("minecraft:stone", false), Digging::Tick { start: false }));
    match dig.look("minecraft:air", true) {
        Digging::Dug(answer) => assert_eq!(answer.text, "Dug stone at (1, 2, 3)."),
        _ => panic!("not dug"),
    }
    dig.ticks = 601;
    match dig.look("minecraft:stone", true) {
        Digging::Stuck(failure) => assert_eq!(
            failure.message,
            "stone at (1, 2, 3) did not break in 30s. Nothing in hand may be able to break it."
        ),
        _ => panic!("not stuck"),
    }
}

#[test]
fn what_is_in_hand_is_named_as_the_server_names_it() {
    assert_eq!(in_hand(&None), "an empty hand");
    assert_eq!(in_hand(&Some(stack(1, "bow", 1))), "bow x1");
    let mut named = stack(1, "bow", 2);
    named.custom_name = Some(Json::text("Longbow"));
    assert_eq!(in_hand(&Some(named)), "Longbow x2");
    assert_eq!(used("bow x1", false, 0).text, "Used bow x1 in the main hand.");
    assert_eq!(used("bow x1", true, 700).text, "Used bow x1 in the off-hand, held for 700ms and released.");
}

fn inventory(filled: Vec<(usize, Stack)>) -> Vec<Option<Stack>> {
    let mut slots: Vec<Option<Stack>> = (0..46).map(|_| None).collect();
    for (slot, stack) in filled {
        slots[slot] = Some(stack);
    }
    slots
}

#[test]
fn what_is_carried_is_listed_found_and_equipped() {
    let slots = inventory(vec![(6, stack(9, "iron_chestplate", 1)), (12, stack(1, "stone", 3)), (40, stack(2, "bow", 1))]);
    let listed = value(&list_inventory(&slots).data.unwrap());
    let at: Vec<u64> = listed["items"].as_array().unwrap().iter().map(|item| item["slot"].as_u64().unwrap()).collect();
    assert_eq!(at, vec![6, 12, 40]);
    let found = value(&find_item(&slots, "Iron").data.unwrap());
    assert_eq!(found["item"]["slot"], Value::from(6));
    assert_eq!(value(&find_item(&slots, "gold").data.unwrap())["item"], Value::Null);

    let equip = |query: &str, destination: &str| {
        equip_item(&slots, 2, query, destination).map(|(equip, answer)| (equip, answer.text))
    };
    assert_eq!(equip("bow", "hand").ok(), Some((Equip::Hold(4), "Equipped bow to hand.".to_owned())));
    assert_eq!(
        equip("stone", "hand").ok().map(|(equip, _)| equip),
        Some(Equip::Swap { source: 12, button: 2 })
    );
    assert_eq!(
        equip("stone", "off-hand").ok().map(|(equip, _)| equip),
        Some(Equip::Swap { source: 12, button: 40 })
    );
    assert_eq!(
        equip("stone", "head").ok().map(|(equip, _)| equip),
        Some(Equip::Wear { source: 12, worn: 5 })
    );
    assert_eq!(said(equip("iron", "hand")), refused("NO_SUCH_ITEM", "No inventory item matches \"iron\""));
    assert_eq!(said(equip("stone", "tail")), refused("BAD_ARGS", "unknown destination tail"));
    assert_eq!(wear(12, 5), vec![12, 5]);
    assert!(wear(5, 5).is_empty());
    assert_eq!((put_back(12, 5, true), put_back(12, 5, false), put_back(5, 5, true)), (Some(12), None, None));
}

#[test]
fn an_open_container_shows_the_carried_slots_as_they_are() {
    let own = inventory(vec![(5, stack(3, "helmet", 1)), (9, stack(1, "stone", 3)), (44, stack(2, "bow", 1))]);
    let mut shown: Vec<Option<Stack>> = (0..36).map(|_| None).collect();
    shown[35] = Some(stack(4, "arrow", 7));
    let menu = player_menu(own, shown);
    assert_eq!(menu.len(), 46);
    assert_eq!(menu[5].as_ref().map(|stack| stack.count), Some(1));
    assert!(menu[9].is_none());
    assert_eq!(menu[44].as_ref().map(|stack| stack.count), Some(7));
}

#[test]
fn a_gift_goes_to_the_hotbar_first() {
    let items = owned(&["air", "stone", "diamond"]);
    assert_eq!(item(&items, " Minecraft:Diamond "), Some(2));
    assert_eq!(item(&items, "stone"), Some(1));
    assert_eq!(item(&items, "create:stone"), None);
    assert_eq!(item(&items, "minecraft::stone"), Some(1));
    assert_eq!(item(&items, "ruby"), None);

    let slots = inventory(vec![(36, stack(1, "stone", 1))]);
    assert_eq!(first_empty(&slots).ok(), Some(37));
    let give = |args: &str, creative: bool, name: &str| giving(&doc(args), creative, "survival", &items, name, &slots);
    assert_eq!(give("{}", true, "diamond").ok(), Some((2, 37)));
    assert_eq!(give(r#"{"slot": 12}"#, true, "diamond").ok(), Some((2, 12)));
    assert_eq!(
        said(give("{}", false, "diamond")),
        refused("NOT_CREATIVE", "The bot is in survival mode; give-item needs creative.")
    );
    assert_eq!(
        said(give("{}", true, "ruby")),
        refused("NO_SUCH_ITEM", "\"ruby\" is not an item in this version.")
    );
    let full: Vec<Option<Stack>> = (0..46).map(|_| Some(stack(1, "stone", 64))).collect();
    assert_eq!(said(first_empty(&full)), refused("INVENTORY_FULL", "The inventory is full and no slot was given."));
    assert_eq!(given_item(3, "diamond", 37).text, "Put 3 diamond in slot 37.");
}

/// air, stone, oak_planks, birch_planks, stick, crafting_table, torch, coal
fn book() -> (Vec<Recipe>, Known) {
    let known = Known::new(owned(&["air", "stone", "oak_planks", "birch_planks", "stick", "crafting_table", "torch", "coal"]));
    let planks = || SlotDisplay::Composite(vec![SlotDisplay::Item(2), SlotDisplay::Item(3)]);
    let either = || Allowed::Direct(vec![2, 3]);
    let recipes = vec![
        Recipe {
            id: 1,
            display: RecipeDisplay::Shaped {
                width: 1,
                height: 2,
                ingredients: vec![planks(), planks()],
                result: SlotDisplay::Stack(4, 4),
            },
            requirements: Some(vec![either(), either()]),
        },
        Recipe {
            id: 2,
            display: RecipeDisplay::Shapeless {
                ingredients: vec![SlotDisplay::Item(7), SlotDisplay::Item(4)],
                result: SlotDisplay::Stack(6, 4),
            },
            requirements: Some(vec![Allowed::Direct(vec![7]), Allowed::Direct(vec![4])]),
        },
        Recipe { id: 3, display: RecipeDisplay::Furnace { result: SlotDisplay::Item(1) }, requirements: None },
        Recipe {
            id: 4,
            display: RecipeDisplay::Shaped {
                width: 3,
                height: 3,
                ingredients: (0..9).map(|_| planks()).collect(),
                result: SlotDisplay::Stack(4, 9),
            },
            requirements: Some((0..9).map(|_| either()).collect()),
        },
    ];
    (recipes, known)
}

#[test]
fn a_recipe_says_what_it_takes_and_what_is_short() {
    let (recipes, tags) = book();
    assert_eq!(stacks_of(recipes[0].display.result(), &tags), vec![(4, 4)]);
    assert_eq!(producing(&recipes, &tags, "stick"), vec![0, 3]);
    assert!(producing(&recipes, &tags, "stone").is_empty());
    assert_eq!(ingredients(&recipes[0], &tags), vec![("oak_planks".to_owned(), 2)]);
    let slots = inventory(vec![(9, stack(2, "oak_planks", 1)), (3, stack(2, "oak_planks", 9))]);
    let carried = held(&slots);
    assert_eq!(carried.get(&"oak_planks".to_owned()), Some(&1));
    assert_eq!(missing(&carried, &ingredients(&recipes[0], &tags)), vec![("oak_planks".to_owned(), 1)]);
    assert_eq!(known(&recipes, &tags, "stick"), Some(0));
    assert_eq!(known(&recipes, &tags, "coal"), None);
    assert_eq!(per_craft(&recipes[0], &tags, 4), 4);
    assert_eq!(per_craft(&recipes[0], &tags, 5), 1);
    assert_eq!(by_shortfall(&recipes, &tags, &carried, &vec![0, 1, 3]), vec![0, 3, 1]);
}

#[test]
fn each_ingredient_is_served_by_its_own_item() {
    let (recipes, tags) = book();
    assert!(can_craft(&recipes[0], &tags, &vec![(2, 1), (3, 1)]));
    assert!(!can_craft(&recipes[0], &tags, &vec![(2, 1)]));
    assert!(can_craft(&recipes[0], &tags, &vec![(3, 2)]));
    assert!(!can_craft(&recipes[2], &tags, &vec![(1, 64)]));
    /* The picky ingredient is served first, whatever the order they are listed in. */
    let picky = Recipe {
        id: 9,
        display: RecipeDisplay::Shapeless { ingredients: Vec::new(), result: SlotDisplay::Item(1) },
        requirements: Some(vec![Allowed::Direct(vec![2, 3]), Allowed::Direct(vec![2])]),
    };
    assert!(can_craft(&picky, &tags, &vec![(2, 1), (3, 1)]));
    /* An item already given out is handed over to one that takes nothing else. */
    let round = Recipe {
        id: 10,
        display: RecipeDisplay::Shapeless { ingredients: Vec::new(), result: SlotDisplay::Item(1) },
        requirements: Some(vec![
            Allowed::Direct(vec![1, 2]),
            Allowed::Direct(vec![1, 3]),
            Allowed::Direct(vec![2, 3]),
        ]),
    };
    assert!(can_craft(&round, &tags, &vec![(2, 1), (3, 1), (1, 1)]));
    assert!(!can_craft(&round, &tags, &vec![(2, 2), (4, 1)]));
    assert!(!can_craft(&round, &tags, &vec![(2, 1), (3, 1)]));
    assert!(can_craft(&round, &tags, &vec![(2, 2), (3, 1)]));
    let long = Recipe {
        id: 11,
        display: RecipeDisplay::Shapeless { ingredients: Vec::new(), result: SlotDisplay::Item(1) },
        requirements: Some((0..9).map(|n| Allowed::Direct(vec![n, n + 1])).collect()),
    };
    assert!(can_craft(&long, &tags, &(1..10).map(|n| (n, 1)).collect()));
    assert!(!can_craft(&long, &tags, &(2..10).map(|n| (n, 2)).collect()));
    let mut worn = stack(2, "oak_planks", 4);
    worn.simple = false;
    assert_eq!(simple(&inventory(vec![(9, worn), (10, stack(2, "oak_planks", 2)), (40, stack(2, "oak_planks", 3))])), vec![(2, 5)]);
}

#[test]
fn recipes_are_answered_with_what_is_missing() {
    let (recipes, tags) = book();
    let carried = held(&inventory(vec![(9, stack(2, "oak_planks", 2))]));
    let told = value(&craftable_answer(&recipes, &tags, &carried, "stick", false).data.unwrap());
    assert_eq!(
        told,
        parsed(
            r#"{"item": "stick", "onlyWhatTheBotKnows": true, "craftable": true, "hasRecipe": true,
                "missing": [], "needsTable": false}"#
        )
    );
    let none = value(&craftable_answer(&recipes, &tags, &carried, "stone", false).data.unwrap());
    assert_eq!(none["hasRecipe"], Value::from(false));
    let all = value(&get_recipe(&recipes, &tags, &carried, "stick", true).data.unwrap());
    assert_eq!(all["recipes"][1]["missing"], parsed(r#"[{"name": "oak_planks", "count": 7}]"#));
    assert_eq!(all["recipes"][1]["requiresTable"], Value::from(true));
    let now = value(&list_recipes(&recipes, &tags, &carried, None, false).data.unwrap());
    assert_eq!(now["recipes"].as_array().map(Vec::len), Some(1));
    assert_eq!(now["stoppedAt"], Value::Null);
    let torch = value(&list_recipes(&recipes, &tags, &carried, Some("torch"), false).data.unwrap());
    assert_eq!(torch["item"], Value::from("torch"));
}

#[test]
fn a_craft_is_planned_or_refused_for_its_reason() {
    let (recipes, tags) = book();
    let planks = vec![(2, 64)];
    assert_eq!(plan(&recipes, &tags, &planks, "stick", false).ok(), Some(0));
    assert_eq!(said(plan(&recipes, &tags, &planks, "coal", false)).0, "NO_RECIPE");
    assert_eq!(said(plan(&recipes, &tags, &planks, "torch", false)).0, "MISSING_INGREDIENTS");
    let large = vec![Recipe { id: 4, ..book().0.pop().unwrap() }];
    assert_eq!(
        said(plan(&large, &tags, &planks, "stick", false)),
        refused(
            "NO_CRAFTING_TABLE",
            "Crafting stick needs a grid bigger than the two-by-two a player carries, and no crafting table is within 16 blocks."
        )
    );
    assert_eq!(plan(&large, &tags, &planks, "stick", true).ok(), Some(0));
    assert_eq!(no_such_item("ruby").message, "\"ruby\" is not an item in this version.");
}

#[test]
fn a_craft_that_never_appears_is_given_up_on() {
    let mut crafts = Crafts::new(2);
    assert!(crafts.another());
    assert!(matches!(crafts.look(false, "stick", 4), Look::Take));
    assert!(crafts.another());
    for _ in 0..40 {
        assert!(matches!(crafts.look(true, "stick", 4), Look::Tick));
    }
    match crafts.look(true, "stick", 4) {
        Look::Failed(failure) => assert_eq!(
            failure.message,
            "The server placed stick's recipe but no result appeared. 4 were made before that."
        ),
        _ => panic!("not given up on"),
    }
    let slots = inventory(vec![(3, stack(4, "stick", 2)), (20, stack(4, "stick", 5)), (44, stack(4, "stick", 1))]);
    assert_eq!(count(&slots, 4), 6);
    assert!(result_empty(Some((3, &slots)), 4));
    assert!(result_empty(Some((3, &slots)), 3));
    assert_eq!(crafted("stick", 2, 6).map(|answer| answer.text), Some("Crafted stick x4.".to_owned()));
    assert!(crafted("stick", 6, 6).is_none());
    assert_eq!(nothing_gained("stick").code, "NOTHING_CRAFTED");
}

#[test]
fn the_nearest_table_is_found() {
    let tables = [pos(12, 64, 0), pos(10, 66, 0), pos(9, 63, 1)];
    let there = |at: BlockPos| tables.contains(&at);
    let feet = pos(10, 64, 0);
    assert_eq!(nearest_table(there, feet, 8), Some(pos(9, 63, 1)));
    assert_eq!(nearest_table(|at: BlockPos| at == tables[0] || at == tables[1], feet, 8), Some(pos(10, 66, 0)));
    assert_eq!(nearest_table(there, pos(100, 64, 0), 8), None);
}

fn offer(result: Option<Stack>, special: i32) -> Offer {
    Offer {
        base_cost_a: stack(1, "emerald", 10),
        max_stack: 64,
        demand_price: 3,
        special_price_diff: special,
        cost_b: None,
        result,
        out_of_stock: false,
        uses: 2,
        max_uses: 12,
        xp: 5,
    }
}

fn named(item: u32, name: &str, shown: &str) -> Option<Stack> {
    let mut stack = stack(item, name, 1);
    stack.item_name = Some(shown.to_owned());
    Some(stack)
}

#[test]
fn a_price_keeps_to_what_a_slot_takes() {
    assert_eq!(offer(None, 0).cost_a(), 13);
    assert_eq!(offer(None, -50).cost_a(), 1);
    assert_eq!(offer(None, i32::MAX).cost_a(), 64);
    let mut out = offer(None, 0);
    assert!(!out.out_of_stock());
    out.out_of_stock = true;
    assert!(out.out_of_stock());
    assert_eq!(out.uses(), 12);
}

#[test]
fn a_trade_is_picked_by_its_number_or_by_what_it_gives() {
    let offers = vec![
        offer(named(5, "bread", "Bread"), 0),
        offer(named(6, "golden_apple", "Golden Apple"), 0),
        offer(named(7, "apple", "Apple"), 0),
        offer(named(8, "bread", "Bread"), 0),
    ];
    assert_eq!(pick(&offers, "2").ok(), Some(1));
    assert_eq!(pick(&offers, "apple").ok(), Some(2));
    assert_eq!(pick(&offers, "golden").ok(), Some(1));
    assert_eq!(
        said(pick(&offers, "9")),
        refused("NO_SUCH_TRADE", "there is no trade 9; this screen lists 4, numbered from 1.")
    );
    assert_eq!(
        said(pick(&offers, "bread")),
        refused("AMBIGUOUS_TRADE", "2 trades give \"bread\": 1. Bread x1, 4. Bread x1. Pick one by its number.")
    );
    assert_eq!(
        said(pick(&offers, "+1")),
        refused(
            "NO_SUCH_TRADE",
            "no trade gives \"+1\". This screen sells 1. Bread x1, 2. Golden Apple x1, 3. Apple x1, 4. Bread x1."
        )
    );
    assert_eq!(said(choose_trade(None, "bread")).0, "NO_TRADES_YET");
}

#[test]
fn a_trading_screen_is_read_and_another_is_named() {
    let window = Window { id: 3, menu: Menu::Merchant, title: Json::text("Librarian"), slots: (0..39).map(|_| None).collect() };
    let mut book = stack(9, "enchanted_book", 1);
    book.enchantments = vec![(0, 3), (7, 1)];
    let mut known = Known::new(Vec::new());
    known.registries.insert(
        "minecraft:enchantment".to_owned(),
        vec![RegistryEntry { path: "mending".to_owned(), description: None, max_level: None, translation_key: None }],
    );
    let offers = Offers {
        container_id: 3,
        offers: vec![offer(Some(book), 0)],
        villager_level: 2,
        villager_xp: 30,
        show_progress: true,
        can_restock: false,
    };
    let (shown, sent) =
        require_trades(Some(&window), false, Some(&offers)).unwrap_or_else(|failure| panic!("{}", failure.message));
    let data = value(&read_trades(shown, sent, Some(&known)).data.unwrap());
    assert_eq!(data["level"], Value::from(2));
    assert_eq!(
        data["trades"][0]["enchantments"],
        parsed(r#"[{"name": "mending", "level": 3}, {"name": "unknown", "level": 1}]"#)
    );
    assert_eq!(data["trades"][0]["costA"]["count"], Value::from(13));
    assert_eq!(data["trades"][0]["baseCountA"], Value::from(10));
    let chosen = value(&selected(&offers.offers[0], 1, None, &window.slots).data.unwrap());
    assert_eq!(chosen["trade"]["number"], Value::from(1));
    assert_eq!(chosen["result"], Value::Null);

    let chest = Window { id: 3, menu: Menu::Generic9x3, title: Json::Null, slots: Vec::new() };
    assert_eq!(
        said(require_trades(Some(&chest), false, None)),
        refused("NO_TRADES", "ContainerScreen is open, and it is not a trading screen.")
    );
    assert_eq!(
        said(require_trades(None, true, None)),
        refused("NO_TRADES", "BookViewScreen is open, and it is not a trading screen.")
    );
}

#[test]
fn a_message_is_said_and_a_command_is_not() {
    assert_eq!(message(&doc(r#"{"message": "hi"}"#)).ok(), Some("hi"));
    assert_eq!(
        said(message(&doc(r#"{"message": "/stop"}"#))),
        refused("NOT_A_COMMAND", "send-chat is for plain chat. Use run-command to send a slash command.")
    );
    assert_eq!(said(message(&doc("{}"))), refused("BAD_ARGS", "expected a string for message"));
    assert_eq!(sent("a1", "hi").text, "Sent as a1: hi");
}

fn part(text: &str, event: Option<ClickEvent>, siblings: Vec<Part>) -> Part {
    Part { text: text.to_owned(), event, siblings }
}

#[test]
fn what_a_server_wrote_in_chat_is_pressed_by_its_run() {
    let accept = part("[Accept]", Some(ClickEvent::RunCommand("/quest accept".to_owned())), vec![]);
    let link = part("[Site]", Some(ClickEvent::OpenUrl), vec![]);
    let lines = vec![part("Quest: [Accept] [Site]", None, vec![part("Quest: ", None, vec![]), accept, link])];
    let offered = all_clickable(&lines);
    assert_eq!(offered.len(), 2);
    let at = pick_click(&offered, "accept").unwrap_or_else(|failure| panic!("{}", failure.message));
    let (text, event) = offered[at];
    match press_click(text, event) {
        Ok(Pressing::Run(command)) => assert_eq!(command, "quest accept"),
        _ => panic!("not run"),
    }
    assert_eq!(clicked(text, event, None).text, "clicked \"[Accept]\" (run_command).");
    let (text, event) = offered[1];
    assert_eq!(said(press_click(text, event)).0, "CLICK_NOT_IN_GAME");
    assert_eq!(
        said(pick_click(&offered, "decline")),
        refused(
            "NO_SUCH_CHAT_CLICK",
            "no chat line on screen has a clickable \"decline\" on it. What is: \"[Accept]\" (run_command), \"[Site]\" (open_url)."
        )
    );
    assert_eq!(describe_clicks(&Vec::new()), "Nothing said in chat since this bot joined is clickable at all.");
    let show = ClickEvent::ShowDialog(Dialog::Declared("shop:main".to_owned()));
    assert!(matches!(press_click("[Shop]", &show), Ok(Pressing::Show(_))));
    assert_eq!(no_such_dialog("[Shop]").code, "NO_SUCH_DIALOG");
    assert_eq!(dialog_screen(&doc(r#"{"type": "minecraft:dialog_list"}"#)), "DialogListDialogScreen");
    assert_eq!(dialog_screen(&doc("{}")), "SimpleDialogScreen");
}

#[test]
fn a_command_is_sent_without_its_slash_and_completed_in_order() {
    let (command, answer) = ran("say hi");
    assert_eq!((command.as_str(), answer.text.as_str()), ("say hi", "Ran /say hi."));
    let (command, _) = ran("//set stone");
    assert_eq!(command, "/set stone");
    let list: Vec<Suggestion> =
        ["zeta", "Alpha", "beta", "alpha"].iter().map(|text| Suggestion { text: (*text).to_owned(), tooltip: Json::Null }).collect();
    let data = value(&completed("/x", &list, 3).data.unwrap());
    let names: Vec<&str> = data["completions"].as_array().unwrap().iter().map(|one| one["name"].as_str().unwrap()).collect();
    assert_eq!(names, vec!["Alpha", "alpha", "beta"]);
    assert_eq!(data["total"], Value::from(4));
    assert_eq!(completion_timeout("/x", 500).code, "COMPLETION_TIMEOUT");
}

#[test]
fn a_switch_is_over_with_the_first_of_its_ends() {
    assert!(already_there("You are ALREADY CONNECTED to this server!"));
    assert!(refuses("The specified server does not exist."));
    assert!(!refuses("Welcome"));
    let at = pos(1, 2, 3);
    match switching("lobby", 1, 500, News::Line("You are already connected!", at)) {
        Arriving::Answer(answer) => assert_eq!(answer.text, "Already on \"lobby\" at (1, 2, 3)."),
        _ => panic!("no answer"),
    }
    match switching("lobby", 1, 500, News::Line("Unable to connect to lobby", at)) {
        Arriving::Failed(failure) => assert_eq!(failure.code, "SWITCH_REFUSED"),
        _ => panic!("not refused"),
    }
    assert!(matches!(switching("lobby", 1, 500, News::Line("hello", at)), Arriving::NotYet));
    assert!(matches!(switching("lobby", 1, 500, News::Look { spawned: true, logins: 1 }), Arriving::NotYet));
    assert!(matches!(switching("lobby", 1, 500, News::Look { spawned: true, logins: 2 }), Arriving::Arrived));
    assert!(matches!(switching("lobby", 1, 500, News::TimeUp), Arriving::Failed(_)));
    assert_eq!(now_on("lobby", at, "overworld").text, "Now on \"lobby\" at (1, 2, 3) in overworld.");
    assert_eq!(timed_out("lobby", 500).code, "SWITCH_TIMEOUT");
}

#[test]
fn the_world_is_told_by_its_clock() {
    let data = value(&world_state(Some(24_000 * 9 + 6000), true, false, Weather::Clear).data.unwrap());
    assert_eq!(
        data,
        parsed(r#"{"timeOfDay": 6000, "day": 9, "moonPhase": 1, "isDay": true, "weather": "clear", "doDaylightCycle": null}"#)
    );
    let fixed = value(&world_state(None, true, true, weather(true, true)).data.unwrap());
    assert_eq!((fixed["isDay"].clone(), fixed["weather"].clone(), fixed["day"].clone()), (Value::from(false), Value::from("thunder"), Value::from(0)));
    assert!(sky(Some(0), false, true, false, "minecraft:overworld").weather);
    assert!(!sky(Some(0), false, true, false, "minecraft:the_end").weather);
    assert!(!sky(Some(0), false, true, true, "minecraft:the_nether").weather);
    assert_eq!(no_sky().clock, None);
    assert_eq!(weather(false, true), Weather::Rain);
}
