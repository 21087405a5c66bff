//! Blocks: named, found, and read as a region.
use bot_azalea::calls::Failure;
use bot_azalea::json::{Fraction, Json, Number};
use bot_azalea::place::BlockPos;
use bot_azalea::tools::blocks::{
    block_info, block_kind, find_blocks, found_blocks, is_air, state_name,
};
use bot_azalea::tools::region::{answer, asked, Bounds, Region, State};
use serde_json::Value;
use std::collections::HashMap;

/// A document as the library holds one.
fn json(value: &Value) -> Json {
    match value {
        Value::Null => Json::Null,
        Value::Bool(b) => Json::Bool(*b),
        Value::Number(n) => Json::Number(number(n)),
        Value::String(text) => Json::Text(text.clone()),
        Value::Array(items) => Json::Array(items.iter().map(json).collect(), String::new()),
        Value::Object(fields) => Json::Object(
            fields.iter().map(|(name, value)| (name.clone(), json(value))).collect(),
            String::new(),
        ),
    }
}

fn number(n: &serde_json::Number) -> Number {
    if let Some(whole) = n.as_i64() {
        return Number::Whole(whole);
    }
    if let Some(large) = n.as_u64() {
        return Number::Large(large);
    }
    let f = n.as_f64().unwrap();
    Number::Fraction(Fraction {
        bits: f.to_bits(),
        whole: if f.fract() == 0.0 { Some(f as i64) } else { None },
        floor: f.floor() as i32,
        cut: f as i32,
    })
}

/// A document of the library as anybody else holds one.
fn value(json: &Json) -> Value {
    match json {
        Json::Null => Value::Null,
        Json::Bool(b) => Value::from(*b),
        Json::Number(Number::Whole(n)) => Value::from(*n),
        Json::Number(Number::Large(n)) => Value::from(*n),
        Json::Number(Number::Fraction(f)) => Value::from(f64::from_bits(f.bits)),
        Json::Text(text) => Value::from(text.as_str()),
        Json::Array(items, _) => Value::Array(items.iter().map(value).collect()),
        Json::Object(fields, _) => {
            Value::Object(fields.iter().map(|(name, field)| (name.clone(), value(field))).collect())
        }
    }
}

fn parsed(text: &str) -> Value {
    serde_json::from_str(text).unwrap()
}

fn doc(text: &str) -> Json {
    json(&parsed(text))
}

/// The kinds of block the tests lay out, by the number of the state each has.
const KINDS: [&str; 14] = [
    "minecraft:air",
    "minecraft:stone",
    "minecraft:cave_air",
    "minecraft:void_air",
    "minecraft:dirt",
    "minecraft:gravel",
    "minecraft:sand",
    "minecraft:clay",
    "minecraft:ice",
    "minecraft:tuff",
    "minecraft:calcite",
    "minecraft:oak_stairs",
    "minecraft:oak_stairs",
    "minecraft:note_block",
];

fn state(kind: &str) -> State {
    let id = KINDS.iter().position(|name| name.strip_prefix("minecraft:") == Some(kind)).unwrap();
    State { id: id as u32, kind: KINDS[id] }
}

fn pos(x: i32, y: i32, z: i32) -> BlockPos {
    BlockPos { x, y, z }
}

/// The box as a client reads it: an overworld's build limits, and no chunk at all anywhere but the
/// positions given.
fn read(bounds: &Bounds, include_air: bool, held: &[(BlockPos, &str)]) -> Region {
    let held: HashMap<(i32, i32, i32), State> =
        held.iter().map(|(at, kind)| ((at.x, at.y, at.z), state(kind))).collect();
    Region::read(
        *bounds,
        (-64, 320),
        include_air,
        move |at: BlockPos| held.get(&(at.x, at.y, at.z)).copied(),
        |_: u32| Vec::new(),
    )
}

/// A row of blocks along x from the origin, which is the axis a run follows.
fn row<'a>(kinds: &[&'a str]) -> Vec<(BlockPos, &'a str)> {
    kinds.iter().enumerate().map(|(x, kind)| (pos(x as i32, 0, 0), *kind)).collect()
}

fn runs(region: &Region) -> Vec<(usize, u64)> {
    region.runs.iter().map(|run| (run.block, run.count)).collect()
}

/// A corner as a call words one, as numbers on the wire: a whole one arrives as 3.0 as often as 3.
fn at(x: f64, y: f64, z: f64) -> Value {
    let mut corner = serde_json::Map::new();
    corner.insert("x".to_owned(), Value::from(x));
    corner.insert("y".to_owned(), Value::from(y));
    corner.insert("z".to_owned(), Value::from(z));
    Value::Object(corner)
}

fn call(from: Value, to: Value) -> Value {
    let mut args = serde_json::Map::new();
    args.insert("from".to_owned(), from);
    args.insert("to".to_owned(), to);
    Value::Object(args)
}

fn air(args: &Value) -> bool {
    asked(&json(args)).unwrap_or_else(|failure| panic!("{}", failure.message)).1
}

/// The three blocks the game calls air, which the other kind of bot drops as one: a cave is cave_air
/// throughout and the End's emptiness is void_air, so a bot that dropped only the plain kind would
/// answer the same includeAir with a different build.
#[test]
fn leaving_air_out_leaves_out_every_block_the_game_calls_air() {
    let row = row(&["stone", "air", "cave_air", "void_air", "stone"]);
    let bounds = Bounds::between(pos(0, 0, 0), pos(4, 0, 0));

    let kept = read(&bounds, true, &row);
    assert_eq!(kept.palette, ["stone", "air", "cave_air", "void_air"]);
    assert_eq!(runs(&kept), [(0, 1), (1, 1), (2, 1), (3, 1), (0, 1)]);

    /* And the stone either side stays two runs: joining them would claim a solid span. */
    let left_out = read(&bounds, false, &row);
    assert_eq!(left_out.palette, ["stone"]);
    assert_eq!(runs(&left_out), [(0, 1), (0, 1)]);
}

/// A palette entry is written the way every other tool here writes a block, the minecraft namespace
/// left off, and a block that comes back takes the entry it had.
#[test]
fn the_palette_names_a_block_without_its_namespace_and_holds_it_once() {
    let row = row(&["stone", "dirt", "dirt", "stone"]);
    let region = read(&Bounds::between(pos(0, 0, 0), pos(3, 0, 0)), true, &row);

    assert_eq!(region.palette, ["stone", "dirt"]);
    assert_eq!(runs(&region), [(0, 1), (1, 2), (0, 1)]);
}

/// A palette entry is the whole state, spelled the way /setblock takes one and the way the game
/// writes one -- the properties in name order.
#[test]
fn the_palette_spells_a_block_state_out_in_property_order() {
    let stairs = State { id: 11, kind: KINDS[11] };
    let stone = state("stone");
    let region = Region::read(
        Bounds::between(pos(0, 0, 0), pos(1, 0, 0)),
        (-64, 320),
        true,
        move |at: BlockPos| Some(if at.x == 0 { stairs } else { stone }),
        |id: u32| {
            if id == 11 {
                vec![
                    ("waterlogged".to_owned(), "false".to_owned()),
                    ("half".to_owned(), "top".to_owned()),
                    ("facing".to_owned(), "east".to_owned()),
                    ("shape".to_owned(), "straight".to_owned()),
                ]
            } else {
                Vec::new()
            }
        },
    );

    assert_eq!(
        region.palette,
        ["oak_stairs[facing=east,half=top,shape=straight,waterlogged=false]", "stone"]
    );
}

/// Nothing else says where a run sits, so the walk is the answer's spine. A layer stays contiguous: a
/// run follows x, and z moves on only once a row is done.
#[test]
fn the_walk_goes_y_then_z_then_x() {
    let held = [
        (pos(0, 0, 0), "stone"),
        (pos(1, 0, 0), "dirt"),
        (pos(0, 0, 1), "gravel"),
        (pos(1, 0, 1), "sand"),
        (pos(0, 1, 0), "clay"),
        (pos(1, 1, 0), "ice"),
        (pos(0, 1, 1), "tuff"),
        (pos(1, 1, 1), "calcite"),
    ];
    let region = read(&Bounds::between(pos(0, 0, 0), pos(1, 1, 1)), true, &held);

    let in_walk_order = ["stone", "dirt", "gravel", "sand", "clay", "ice", "tuff", "calcite"];
    assert_eq!(region.palette, in_walk_order);
}

/// Either pair of opposite corners describes the same box, and a caller is as likely to name one as
/// the other. The answer names the lower corner, and the runs come back in the walk's order rather
/// than the order the corners were given in.
#[test]
fn either_pair_of_opposite_corners_reads_the_same_box() {
    let mixed = Bounds::between(pos(5, -1, 9), pos(2, 4, 3));
    assert_eq!((mixed.low, mixed.high), (pos(2, -1, 3), pos(5, 4, 9)));
    assert_eq!(mixed.size(), (4, 6, 7));

    let held = [(pos(0, 0, 0), "stone"), (pos(1, 0, 0), "dirt")];
    let (low, high) = (pos(0, 0, 0), pos(1, 0, 0));
    let forwards = read(&Bounds::between(low, high), true, &held);
    let backwards = read(&Bounds::between(high, low), true, &held);

    assert_eq!(forwards.palette, ["stone", "dirt"]);
    assert_eq!(runs(&backwards), runs(&forwards));
}

/// A position inside the world whose chunk the client was never sent is missing; a layer past the
/// world's floor or ceiling is outside. Both end the run they fall in.
#[test]
fn a_chunk_that_was_never_sent_is_counted_apart_from_a_layer_out_of_the_world() {
    let held = [(pos(0, 319, 0), "stone"), (pos(1, 319, 1), "stone")];
    let region = read(&Bounds::between(pos(0, 319, 0), pos(1, 321, 1)), true, &held);

    /* The two layers above the ceiling are counted whole, four blocks each, not one apiece. */
    assert_eq!((region.missing, region.outside), (2, 8));
    assert_eq!(region.palette, ["stone"]);
    assert_eq!(runs(&region), [(0, 1), (0, 1)]);
}

/// The renderer picks these names out of the document by hand. The two counts are given different
/// values on purpose -- swapping the pair of keys is the way to get them wrong that no other test
/// would see.
#[test]
fn the_dto_is_worded_the_way_the_renderer_reads_it() {
    /* A layer in the world and the one above its ceiling, with a corner in no chunk. */
    let bounds = Bounds::between(pos(0, 319, 0), pos(1, 320, 1));
    let region = read(
        &bounds,
        true,
        &[(pos(0, 319, 0), "stone"), (pos(1, 319, 0), "stone"), (pos(0, 319, 1), "dirt")],
    );

    let answered = answer(bounds, &region);
    assert_eq!(answered.text, "region (0, 319, 0) to (1, 320, 1)");
    assert_eq!(
        answered.data.as_ref().map(value),
        Some(parsed(
            r#"{
                "from": {"x": 0, "y": 319, "z": 0},
                "to": {"x": 1, "y": 320, "z": 1},
                "size": {"x": 2, "y": 2, "z": 2},
                "blocks": 8,
                "palette": ["stone", "dirt"],
                "runs": [{"block": 0, "count": 2}, {"block": 1, "count": 1}],
                "missing": 1,
                "outside": 4
            }"#
        ))
    );
}

/// Air is read unless a call says not to, which is the other kind of bot's default too.
#[test]
fn a_call_that_leaves_include_air_out_reads_the_air_as_well() {
    let mut args = call(at(0.0, 0.0, 0.0), at(1.0, 1.0, 1.0));
    assert!(air(&args));
    args["includeAir"] = Value::from(false);
    assert!(!air(&args));
}

/// The fraction is cut towards zero as gson cuts it -- flooring would push a negative corner a block
/// further out.
#[test]
fn a_fractional_corner_is_cut_towards_zero_as_the_other_bot_cuts_it() {
    let args = call(at(-12.5, 0.9, -0.5), at(12.5, 1.0, 0.5));
    let (bounds, _) = asked(&json(&args)).unwrap_or_else(|failure| panic!("{}", failure.message));

    assert_eq!(bounds.low, pos(-12, 0, 0));
    assert_eq!(bounds.high, pos(12, 1, 0));
}

fn said<T>(outcome: Result<T, Failure>) -> (String, String) {
    match outcome {
        Ok(_) => panic!("was not refused"),
        Err(failure) => (failure.code, failure.message),
    }
}

#[test]
fn a_corner_that_is_not_one_is_refused() {
    let (code, message) = said(asked(&doc(r#"{"from": {"x": 1, "z": 2}, "to": {}}"#)));
    assert_eq!(code, "BAD_ARGS");
    assert_eq!(message, "expected a number for y");
    let (_, message) =
        said(asked(&doc(r#"{"from": {"x": 1, "y": 1, "z": 2}, "to": {"x": 1, "y": 1, "z": 2}, "includeAir": 3}"#)));
    assert_eq!(message, "expected a boolean for includeAir");
}

#[test]
fn every_position_of_a_box_is_accounted_for() {
    let bounds = Bounds::between(pos(-1, 318, -1), pos(2, 321, 1));
    let held = [
        (pos(-1, 318, -1), "stone"),
        (pos(0, 318, -1), "air"),
        (pos(2, 319, 1), "dirt"),
        (pos(1, 319, 1), "dirt"),
    ];
    let region = read(&bounds, true, &held);
    let told: u64 = region.runs.iter().map(|run| run.count).sum();
    assert_eq!(told + region.missing + region.outside, 4 * 4 * 3);

    /* Told back, the runs are the blocks in the order they were walked. */
    let blocks: Vec<&str> = region
        .runs
        .iter()
        .flat_map(|run| vec![region.palette[run.block].as_str(); run.count as usize])
        .collect();
    assert_eq!(blocks, ["stone", "air", "dirt", "dirt"]);
}

#[test]
fn a_box_too_large_to_count_is_told_from_one_that_is_not() {
    assert!(Bounds::between(pos(0, 0, 0), pos(100, 100, 100)).fits());
    assert!(!Bounds::between(pos(i32::MIN, 0, 0), pos(i32::MAX, 0, 0)).fits());
    assert!(!Bounds::between(pos(0, 0, 0), pos(i32::MAX - 1, i32::MAX - 1, i32::MAX - 1)).fits());
}

#[test]
fn a_state_is_named_without_its_namespace_and_its_properties_in_order() {
    assert_eq!(state_name("minecraft:stone", Vec::new()), "stone");
    let pair = |name: &str, value: &str| (name.to_owned(), value.to_owned());
    assert_eq!(
        state_name("note_block", vec![pair("note", "3"), pair("instrument", "harp"), pair("powered", "true")]),
        "note_block[instrument=harp,note=3,powered=true]"
    );
    assert_eq!(state_name("a", vec![pair("b", "2"), pair("b", "1"), pair("a", "9")]), "a[a=9,b=1,b=2]");
}

#[test]
fn all_three_airs_are_air() {
    assert!(is_air("minecraft:air"));
    assert!(is_air("cave_air"));
    assert!(is_air("minecraft:void_air"));
    assert!(!is_air("minecraft:stone"));
}

#[test]
fn a_block_is_told_with_its_kind_and_nothing_is_told_of_one_not_loaded() {
    let told = block_info(pos(1, -2, 3), Some(("minecraft:dirt", 10)));
    assert_eq!(told.text, "block at 1, -2, 3");
    assert_eq!(
        told.data.as_ref().map(value),
        Some(parsed(
            r#"{"position": {"x": 1, "y": -2, "z": 3},
                "block": {"name": "dirt", "type": 10, "position": {"x": 1, "y": -2, "z": 3}}}"#
        ))
    );
    let unknown = block_info(pos(1, -2, 3), None);
    assert_eq!(value(&unknown.data.unwrap())["block"], Value::Null);
}

#[test]
fn an_unknown_block_is_refused_rather_than_taken_for_air() {
    let kinds = vec!["air".to_owned(), "stone".to_owned(), "dirt".to_owned()];
    assert_eq!(block_kind(&kinds, "minecraft:dirt").ok(), Some(2));
    assert_eq!(block_kind(&kinds, "stone").ok(), Some(1));
    let (code, message) = said(block_kind(&kinds, "stoone"));
    assert_eq!(code, "NO_SUCH_BLOCK");
    assert_eq!(message, "there is no block called stoone");
    assert!(block_kind(&kinds, "create:dirt").is_err());
}

#[test]
fn blocks_are_found_nearest_first_and_no_further_than_asked() {
    let there = [pos(10, 5, 0), pos(11, 5, 0), pos(10, 5, -3), pos(10, 4, 0), pos(10, 8, 0), pos(13, 8, 0)];
    let holds = |at: BlockPos| there.contains(&at);
    let from = pos(10, 5, 0);

    /* A reach of three blocks: nine is the square of it. */
    let found = find_blocks(holds, from, 3, 9, 10);
    assert_eq!(found, [pos(10, 5, 0), pos(10, 4, 0), pos(11, 5, 0), pos(10, 5, -3), pos(10, 8, 0)]);
    assert_eq!(find_blocks(holds, from, 3, 9, 2), [pos(10, 5, 0), pos(10, 4, 0)]);
    assert!(find_blocks(holds, from, -1, 1, 10).is_empty());

    let told = found_blocks("minecraft:stone", Json::number(3), &found);
    assert_eq!(told.text, "found 5 minecraft:stone");
    assert_eq!(value(&told.data.unwrap())["positions"][1], parsed(r#"{"x": 10, "y": 4, "z": 0}"#));
}
