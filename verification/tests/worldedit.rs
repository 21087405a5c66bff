//! WorldEdit's selection, as it is described and as it is asked for.
use bot_azalea::json::{Json, Number};
use bot_azalea::place::BlockPos;
use bot_azalea::tools::worldedit::{read_selection, Asked};
use bot_azalea::worldedit::{ask, is_cui, registration, Selection};

fn pos(x: i32, y: i32, z: i32) -> BlockPos {
    BlockPos { x, y, z }
}

/// The messages are WorldEdit's own, in the form `SelectionPointEvent` and the Bukkit player that
/// sends it produce: the type id, then the parameters, joined with pipes.
#[test]
fn a_corner_is_read_where_the_server_put_it() {
    let mut selection = Selection::new();

    selection.accept("s|cuboid");
    selection.accept("p|0|12|64|-30|1");
    selection.accept("p|1|14|66|-28|27");

    assert_eq!(selection.shape(), Some("cuboid"));
    assert_eq!(selection.volume(), Some(27));
    assert_eq!(selection.corners(), vec![(0, pos(12, 64, -30)), (1, pos(14, 66, -28))]);
}

/// A shape starts a description over. Without that, a selection that was cleared and described again
/// would still answer with the corners of the one that is gone.
#[test]
fn a_shape_drops_the_corners_before_it() {
    let mut selection = Selection::new();

    selection.accept("s|cuboid");
    selection.accept("p|0|12|64|-30|1");
    selection.accept("p|1|14|66|-28|27");
    selection.accept("s|cuboid");

    assert_eq!(selection.corners().len(), 0);
    assert_eq!(selection.volume(), None);
}

/// `//pos1` on its own moves one corner, and WorldEdit describes only that one.
#[test]
fn one_corner_changes_without_the_other() {
    let mut selection = Selection::new();

    selection.accept("s|cuboid");
    selection.accept("p|0|12|64|-30|1");
    selection.accept("p|1|14|66|-28|27");

    let described = selection.described();

    selection.accept("p|0|0|64|0|29767");

    assert_eq!(selection.described(), described + 1);
    assert_eq!(selection.corners(), vec![(0, pos(0, 64, 0)), (1, pos(14, 66, -28))]);
}

/// A message it cannot make sense of must leave what it already knows alone rather than half-applying
/// itself.
#[test]
fn what_cannot_be_read_changes_nothing() {
    let mut selection = Selection::new();

    selection.accept("s|cuboid");
    selection.accept("p|0|12|64|-30|1");

    let described = selection.described();

    selection.accept("col|0xff0000ff|0x00ff00ff|0x0000ffff|0xffffffff");
    selection.accept("p|0|not-a-number|64|-30|1");
    selection.accept("p|1|3|4");
    selection.accept("");

    assert_eq!(selection.described(), described);
    assert_eq!(selection.corners(), vec![(0, pos(12, 64, -30))]);
}

#[test]
fn a_third_corner_and_a_volume_that_is_none_are_told_apart() {
    let mut selection = Selection::new();
    selection.accept("p|2|1|2|3|1");
    assert_eq!(selection.described(), 0);
    selection.accept("p|1|1|2|3|many");
    assert_eq!(selection.described(), 1);
    assert_eq!(selection.volume(), None);
    selection.accept("p|0|2147483648|2|3|1");
    assert_eq!(selection.corners(), vec![(1, pos(1, 2, 3))]);
    selection.accept("s");
    assert_eq!(selection.shape(), None);
}

#[test]
fn the_handshake_goes_out_on_the_channels_the_plugin_listens_on() {
    assert!(is_cui("worldedit", "cui"));
    assert!(!is_cui("worldedit", "other"));
    assert_eq!(ask(), ("worldedit:cui", "v|4"));
    assert_eq!(registration(), ("minecraft:register", "worldedit:cui"));
}

#[test]
fn a_description_with_no_corner_is_waited_on_for_one_tick_more() {
    let mut asked = Asked::new(3);
    assert!(!asked.tick(3, 2));
    assert!(!asked.tick(4, 0));
    assert!(asked.tick(4, 0));

    let mut asked = Asked::new(3);
    assert!(asked.tick(4, 1));
}

#[test]
fn a_selection_is_answered_and_so_is_none() {
    let mut selection = Selection::new();
    selection.accept("s|cuboid");
    selection.accept("p|1|14|66|-28|27");
    let told = read_selection(Some(&selection));
    assert_eq!(told.text, "read-selection");
    let data = told.data.unwrap();
    assert_eq!(data.bool_at("supported"), Some(true));
    assert_eq!(data.text_at("shape"), Some("cuboid"));
    assert_eq!(data.int_at("volume"), Some(27));
    let points = data.items_at("points").unwrap();
    assert_eq!(points.len(), 1);
    assert_eq!(points[0].int_at("index"), Some(1));
    assert_eq!(points[0].int_at("z"), Some(-28));

    let none = read_selection(None).data.unwrap();
    assert_eq!(none.bool_at("supported"), Some(false));
    assert!(matches!(none.get("volume"), Some(Json::Null)));
    assert!(!matches!(none.get("volume"), Some(Json::Number(Number::Whole(_)))));
}
