//! Screens: dialogs, editors, windows and what is picked in them.
use bot_azalea::calls::Failure;
use bot_azalea::commands::{verify, Check, Commands, Node, NodeKind, Parser};
use bot_azalea::dialog::{Action, Held, Kind, Open, Slider};
use bot_azalea::editors::{
    fits, is_sign, sign_face, text_width, BlockEntities, BlockEntity, CommandEditor, Mode, SignEditor,
};
use bot_azalea::json::{Fraction, Json, Number};
use bot_azalea::menus::{
    first_item, keep_game, Allowed, Cutting, Known, MenuPacket, Menus, RegistryEntry, SlotDisplay,
};
use bot_azalea::place::BlockPos;
use bot_azalea::table::Table;
use bot_azalea::tag::{tag, Tag};
use bot_azalea::tools::book::{read_book, Book, Hand, Showing, Written};
use bot_azalea::tools::dialogs::{
    dialog_feed, find_input, hold_setting, no_dialog, no_such_button, offered, pick_by, press, run, set_input,
    Sent, Slide,
};
use bot_azalea::tools::editors::{
    close, line_of, nothing_to_type_into, opened_command_block, press_command, press_nothing, press_sign,
    read_block_entity, refused_note, type_into_command_block, type_into_dialog, type_into_sign, Field,
    OnTop, Sending,
};
use bot_azalea::tools::options::{
    beacon_args, check, choose_option, container_options, effect, press as press_option, press_args, set_beacon, turn_to, Patterns, Reading,
};
use bot_azalea::tools::stacks::{needle, Stack};
use bot_azalea::tools::windows::{
    closing, drag_clicks, drag_kind, drag_slots, dropping, filled, input, off_hand_took, open, read_window, received,
    require, screen, use_container, Arrival, Awaited, ClickArgs, ClickType, Closing, Held as WindowHeld,
    Landing, Menu, OnScreen, Window,
};
use serde_json::Value;

/// A document as the library holds one.
fn json(value: &Value) -> Json {
    match value {
        Value::Null => Json::Null,
        Value::Bool(b) => Json::Bool(*b),
        Value::Number(n) => Json::Number(number(n)),
        Value::String(text) => Json::Text(text.clone()),
        Value::Array(items) => Json::Array(items.iter().map(json).collect(), String::new()),
        Value::Object(fields) => Json::Object(
            fields.iter().map(|(name, value)| (name.clone(), json(value))).collect(),
            String::new(),
        ),
    }
}

fn number(n: &serde_json::Number) -> Number {
    if let Some(whole) = n.as_i64() {
        return Number::Whole(whole);
    }
    if let Some(large) = n.as_u64() {
        return Number::Large(large);
    }
    let f = n.as_f64().unwrap();
    Number::Fraction(Fraction {
        bits: f.to_bits(),
        whole: if f.fract() == 0.0 { Some(f as i64) } else { None },
        floor: f.floor() as i32,
        cut: f as i32,
    })
}

/// A document of the library as anybody else holds one.
fn value(json: &Json) -> Value {
    match json {
        Json::Null => Value::Null,
        Json::Bool(b) => Value::from(*b),
        Json::Number(Number::Whole(n)) => Value::from(*n),
        Json::Number(Number::Large(n)) => Value::from(*n),
        Json::Number(Number::Fraction(f)) => Value::from(f64::from_bits(f.bits)),
        Json::Text(text) => Value::from(text.as_str()),
        Json::Array(items, _) => Value::Array(items.iter().map(value).collect()),
        Json::Object(fields, _) => {
            Value::Object(fields.iter().map(|(name, field)| (name.clone(), value(field))).collect())
        }
    }
}

fn parsed(text: &str) -> Value {
    serde_json::from_str(text).unwrap()
}

fn doc(text: &str) -> Json {
    json(&parsed(text))
}

fn said<T>(outcome: Result<T, Failure>) -> (String, String) {
    match outcome {
        Ok(_) => panic!("was not refused"),
        Err(failure) => (failure.code, failure.message),
    }
}

fn refused(code: &str, message: &str) -> (String, String) {
    (code.to_owned(), message.to_owned())
}

fn labels(list: &[&str]) -> Vec<String> {
    list.iter().map(|label| (*label).to_owned()).collect()
}

fn pos(x: i32, y: i32, z: i32) -> BlockPos {
    BlockPos { x, y, z }
}

fn stack(item: u32, name: &str, count: i32) -> Stack {
    Stack {
        item,
        name: name.to_owned(),
        count,
        custom_name: None,
        item_name: None,
        lore: Vec::new(),
        enchantments: Vec::new(),
        simple: true,
    }
}

/// The sentence a chest or a book gets is the other kind of bot's for a screen with no button on it,
/// word for word: the end-to-end suite holds both kinds to it.
#[test]
fn a_screen_with_no_buttons_is_named_and_offers_none() {
    let refused = no_such_button("Done", "ContainerScreen", &Vec::new());
    assert_eq!(refused.code, "NO_SUCH_BUTTON");
    assert_eq!(refused.message, "no button matching \"Done\" on ContainerScreen; it offers none");
}

#[test]
fn a_label_is_picked_whole_before_in_part_whatever_its_case() {
    let list = labels(&["Cancel order", "CANCEL", "Accept"]);
    assert_eq!(pick_by(&list, "cancel"), Some(1));
    assert_eq!(pick_by(&list, "order"), Some(0));
    assert_eq!(pick_by(&list, "ACC"), Some(2));
    assert_eq!(pick_by(&list, "deny"), None);
    assert_eq!(offered(&list), "\"Cancel order\", \"CANCEL\", \"Accept\"");
}

const SHOP: &str = r#"{
    "type": "minecraft:multi_action",
    "title": "Shop",
    "inputs": [
        {"type": "text", "key": "name", "label": "Name", "initial": "Amy", "max_length": 8},
        {"type": "minecraft:boolean", "key": "gift", "label": "Gift", "initial": 1, "on_true": "yes"},
        {"type": "single_option", "key": "size", "label": "Size",
         "options": ["small", {"id": "big", "display": "Big one", "initial": true}]},
        {"type": "number_range", "key": "count", "label": "Count", "start": 1, "end": 9},
        {"type": "colour", "key": "tint", "label": "Tint"}
    ],
    "actions": [
        {"label": "Buy", "action": {"type": "dynamic/run_command", "template": "/buy $(name) $(gift) $(size) $(count)"}},
        {"label": "Say", "action": {"type": "run_command", "command": "say hi"}},
        {"label": "Send", "action": {"type": "dynamic/custom", "id": "shop:send", "additions": {"extra": 5, "gift": "old"}}}
    ],
    "exit_action": {"label": "Leave"}
}"#;

fn slider(value: f32, text: &str) -> Slider {
    Slider {
        single: value.to_bits(),
        number: number(&serde_json::Number::from_f64(f64::from(value)).unwrap()),
        text: text.to_owned(),
    }
}

fn shop() -> Open {
    Open::new(doc(SHOP), vec![("count".to_owned(), slider(5.0, "5"))])
}

#[test]
fn a_dialog_starts_from_the_values_its_definition_gives() {
    let open = shop();
    assert_eq!(open.title().0, "Shop");
    assert_eq!(open.screen(), "MultiButtonDialogScreen");
    assert!(open.closes_on_escape());
    assert!(!open.stays_open_after());
    assert_eq!(value(&open.values()), parsed(r#"{"name": "Amy", "gift": true, "size": "big", "count": 5.0}"#));
    let shown: Vec<String> = open.buttons().into_iter().map(|button| button.label).collect();
    assert_eq!(shown, vec!["Buy", "Say", "Send", "Leave"]);
    assert_eq!(open.exit().map(|button| button.label), Some("Leave".to_owned()));
    assert!(matches!(open.inputs()[4].kind, Kind::Unknown));
}

#[test]
fn a_template_takes_what_its_inputs_hold() {
    let mut open = shop();
    open.hold("gift", Held::Checkbox(false));
    let buy = open.buttons()[0].action.as_ref().unwrap().copy();
    match open.action(&buy) {
        Action::Command(command) => assert_eq!(command, "/buy Amy false big 5"),
        _ => panic!("not a command"),
    }
    let send = open.buttons()[2].action.as_ref().unwrap().copy();
    match open.action(&send) {
        Action::Custom { id, payload: Some(Tag::Compound(fields)) } => {
            assert_eq!(id, "shop:send");
            let names: Vec<&str> = fields.iter().map(|(name, _)| name.as_str()).collect();
            /* Each input over what was added under its key. */
            assert_eq!(names, vec!["extra", "gift", "name", "size", "count"]);
            assert!(matches!(fields[0].1, Tag::Int(5)));
            assert!(matches!(fields[1].1, Tag::Byte(0)));
        }
        _ => panic!("not a custom click"),
    }
}

#[test]
fn what_was_put_into_a_template_is_not_read_again() {
    let open = Open::new(
        doc(r#"{"inputs": [
            {"type": "text", "key": "a", "initial": "$(b)"},
            {"type": "text", "key": "b", "initial": "x"}
        ]}"#),
        Vec::new(),
    );
    let command = |template: &str| {
        let action = Json::object()
            .with("type", Json::text("dynamic/run_command"))
            .with("template", Json::text(template));
        match open.action(&action) {
            Action::Command(command) => command,
            _ => panic!("not a command"),
        }
    };
    assert_eq!(command("say $(a)"), "say $(b)");
    assert_eq!(command("say $(a) $(b)"), "say $(b) x");
    assert_eq!(command("$($(b)) $(c) $("), "$(x) $(c) $(");
}

#[test]
fn nothing_is_typed_into_a_box_that_is_not_editable() {
    let mut field = Field {
        key: "k".to_owned(),
        label: None,
        index: 1,
        max_length: 10,
        multiline: true,
        editable: false,
    };
    assert_eq!(bot_azalea::tools::editors::write(&field, "", "\n").err().map(|failure| failure.code), Some("NOTHING_TYPED".to_owned()));
    assert_eq!(bot_azalea::tools::editors::write(&field, "old", "a\nb").err().map(|failure| failure.code), Some("NOTHING_TYPED".to_owned()));
    field.editable = true;
    assert_eq!(bot_azalea::tools::editors::write(&field, "", "a\nb\u{7f}").ok(), Some(("a\nb".to_owned(), 1)));
    field.multiline = false;
    assert_eq!(bot_azalea::tools::editors::write(&field, "", "\n").err().map(|failure| failure.code), Some("FIELD_IS_ONE_LINE".to_owned()));
}

#[test]
fn a_payload_goes_back_to_the_tags_it_was_read_from() {
    assert!(matches!(tag(&doc("true")), Tag::Byte(1)));
    assert!(matches!(tag(&doc("3000000000")), Tag::Long(3_000_000_000)));
    assert!(matches!(tag(&doc("7")), Tag::Int(7)));
    assert!(matches!(tag(&doc("0.5")), Tag::Double(_)));
    match tag(&doc(r#"[{"a": 1}, "b"]"#)) {
        Tag::List(items) => {
            assert_eq!(items.len(), 2);
            assert_eq!(items[1][0].0, "");
        }
        _ => panic!("not a list"),
    }
}

fn tree() -> Option<Commands> {
    let node = |executable: bool, children: Vec<u32>, kind: NodeKind, restricted: bool| Node {
        executable,
        children,
        redirect: None,
        kind,
        restricted,
    };
    Some(Commands {
        entries: vec![
            node(false, vec![1, 3, 5], NodeKind::Root, false),
            node(false, vec![2], NodeKind::Literal("say".to_owned()), false),
            node(true, vec![], NodeKind::Argument(Parser::Message), false),
            node(false, vec![4], NodeKind::Literal("buy".to_owned()), false),
            node(true, vec![], NodeKind::Argument(Parser::Other), false),
            node(true, vec![], NodeKind::Literal("stop".to_owned()), true),
        ],
        root_index: 0,
    })
}

#[test]
fn a_command_is_checked_the_way_the_client_checks_it() {
    let tree = tree();
    assert!(matches!(verify(&tree, "buy a b c d"), Check::NoIssues));
    assert!(matches!(verify(&tree, "buy a b c d e"), Check::ParseErrors));
    assert!(matches!(verify(&tree, "say hello there"), Check::SignatureRequired));
    assert!(matches!(verify(&tree, "stop"), Check::PermissionsRequired));
    assert!(matches!(verify(&tree, "fly"), Check::ParseErrors));
    assert!(matches!(verify(&None, "stop"), Check::ParseErrors));
}

#[test]
fn a_restriction_on_the_way_stands_at_the_end_of_it() {
    let node = |executable, children, kind, restricted| Node { executable, children, redirect: None, kind, restricted };
    let tree = Some(Commands {
        entries: vec![
            node(false, vec![1], NodeKind::Root, false),
            node(false, vec![2, 3], NodeKind::Literal("op".to_owned()), true),
            node(true, vec![], NodeKind::Literal("all".to_owned()), false),
            node(true, vec![], NodeKind::Argument(Parser::Message), false),
        ],
        root_index: 0,
    });
    assert!(matches!(verify(&tree, "op all"), Check::PermissionsRequired));
    assert!(matches!(verify(&tree, "op everybody here"), Check::SignatureRequired));
    assert!(matches!(verify(&tree, "op"), Check::ParseErrors));
}

#[test]
fn a_button_that_runs_a_command_asks_first_where_the_client_would() {
    let mut dialog = Some(shop());
    let pressed = press(&mut dialog, &tree(), "buy").unwrap_or_else(|failure| panic!("{}", failure.message));
    match &pressed.sent {
        Sent::Command { command, confirmed } => {
            assert_eq!(command, "buy Amy yes big 5");
            assert!(!confirmed);
        }
        _ => panic!("not a command"),
    }
    assert_eq!(pressed.answer().text, "pressed \"Buy\"");
    assert!(dialog.is_none());

    let mut dialog = Some(shop());
    let pressed = press(&mut dialog, &None, "Buy").unwrap_or_else(|failure| panic!("{}", failure.message));
    assert_eq!(pressed.answer().text, "pressed \"Buy\", then \"Run Command\" on Confirm Command Execution");
}

#[test]
fn a_command_the_client_will_not_run_takes_the_dialog_down() {
    let mut dialog = Some(shop());
    let (code, _) = said(press(&mut dialog, &tree(), "Say"));
    assert_eq!(code, "COMMAND_NOT_RUN");
    assert!(dialog.is_none());

    let mut dialog = Some(shop());
    assert_eq!(
        said(press(&mut dialog, &tree(), "Sell")),
        refused(
            "NO_SUCH_BUTTON",
            "no button matching \"Sell\" on MultiButtonDialogScreen; it offers \"Buy\", \"Say\", \"Send\", \"Leave\""
        )
    );
    assert!(dialog.is_some());
    let open = dialog.unwrap();
    assert!(matches!(
        run(&None, &open, &doc(r#"{"type": "open_url"}"#), "x").unwrap_or_else(|failure| panic!("{}", failure.message)),
        Sent::Nothing
    ));
}

#[test]
fn an_input_is_set_as_its_kind_takes_it() {
    let open = shop();
    let gift = find_input(&open, "gift").unwrap_or_else(|failure| panic!("{}", failure.message));
    assert_eq!(
        said(set_input("gift", &gift.kind, &doc("3"), "3", None)),
        refused("WRONG_VALUE_TYPE", "\"gift\" is a checkbox and takes true or false, not 3")
    );
    let size = find_input(&open, "size").unwrap_or_else(|failure| panic!("{}", failure.message));
    assert_eq!(
        said(set_input("size", &size.kind, &doc(r#""huge""#), "\"huge\"", None)),
        refused("NO_SUCH_OPTION", "\"size\" has no option \"huge\"; it offers small (\"small\"), big (\"Big one\")")
    );
    let set = set_input("size", &size.kind, &doc(r#""BIG ONE""#), "", None)
        .unwrap_or_else(|failure| panic!("{}", failure.message));
    assert!(matches!(set.held, Held::Choice(id) if id == "big"));
    let count = find_input(&open, "count").unwrap_or_else(|failure| panic!("{}", failure.message));
    let outside = Slide::Outside { start: "1".to_owned(), end: "9".to_owned(), asked: "12".to_owned() };
    assert_eq!(
        said(set_input("count", &count.kind, &doc("12"), "12", Some(outside))),
        refused("OUT_OF_RANGE", "\"count\" goes from 1 to 9, and 12 is outside it")
    );
    let name = find_input(&open, "name").unwrap_or_else(|failure| panic!("{}", failure.message));
    assert_eq!(said(set_input("name", &name.kind, &doc("1"), "1", None)).0, "TEXT_INPUT");
    let tint = find_input(&open, "tint").unwrap_or_else(|failure| panic!("{}", failure.message));
    assert_eq!(said(set_input("tint", &tint.kind, &doc("1"), "1", None)).0, "UNSUPPORTED_INPUT");
    assert_eq!(
        said(find_input(&open, "price")),
        refused(
            "NO_SUCH_INPUT",
            "the dialog has no input \"price\"; its inputs are name, gift, size, count, tint"
        )
    );
    assert_eq!(no_dialog().code, "NO_DIALOG");
}

#[test]
fn what_an_input_is_set_to_is_what_it_holds_after() {
    let mut open = shop();
    let gift = find_input(&open, "gift").unwrap_or_else(|failure| panic!("{}", failure.message));
    let setting = set_input("gift", &gift.kind, &doc("false"), "false", None)
        .unwrap_or_else(|failure| panic!("{}", failure.message));
    let answer = hold_setting(&mut open, &gift, setting);
    assert_eq!(answer.text, "set \"gift\"");
    let data = value(&answer.data.unwrap());
    assert_eq!((data["value"].clone(), data["previous"].clone()), (Value::from(false), Value::from(true)));
    assert!(matches!(open.held("gift"), Some(Held::Checkbox(false))));
    let feed = dialog_feed(&open);
    assert_eq!((feed.kind.as_str(), feed.source.as_str(), feed.text.as_str()), ("dialog", "dialog", "Shop"));
    assert_eq!(value(&feed.component), Value::from("Shop"));
}

#[test]
fn text_goes_into_a_dialog_where_a_player_could_type_it() {
    let mut open = shop();
    let answer = type_into_dialog(&mut open, " B", None, false).unwrap_or_else(|failure| panic!("{}", failure.message));
    assert!(answer.text.contains("Name"), "{}", answer.text);
    assert!(matches!(open.held("name"), Some(Held::Text(text)) if text == "Amy B"));
    assert_eq!(said(type_into_dialog(&mut open, "a\nb", None, true)).0, "FIELD_IS_ONE_LINE");
    assert_eq!(said(type_into_dialog(&mut open, "x", Some("price"), true)).0, "NO_SUCH_FIELD");
    assert_eq!(refused_note(0), ".");
    assert_eq!(
        refused_note(2),
        ". 2 characters did not go in: a field takes what a player could type and no more."
    );
}

fn sign() -> SignEditor {
    let blank = || String::new();
    SignEditor { at: pos(1, 2, 3), front: true, hanging: false, lines: [blank(), blank(), blank(), blank()] }
}

#[test]
fn a_sign_is_written_by_its_lines_and_no_others() {
    assert_eq!(line_of("3").ok(), Some(2));
    assert_eq!(
        said(line_of("5")),
        refused("NO_SUCH_FIELD", "a sign's fields are its lines, numbered 1 to 4, and \"5\" is not one of them")
    );
    let mut open = Some(sign());
    let (written, answer) =
        type_into_sign(&mut open, "one\ntwo", Some("2"), true).unwrap_or_else(|failure| panic!("{}", failure.message));
    assert_eq!(written.lines.to_vec(), vec!["", "one", "two", ""]);
    assert!(!answer.text.is_empty());

    let mut open = Some(sign());
    assert_eq!(said(type_into_sign(&mut open, "a\nb\nc", Some("3"), true)).0, "SIGN_TOO_SHORT");
    let (sent, answer) = press_sign(&mut open, "Done").unwrap_or_else(|failure| panic!("{}", failure.message));
    assert_eq!(sent.at, pos(1, 2, 3));
    assert_eq!(answer.text, "pressed \"Done\"");
    assert!(open.is_none());
}

#[test]
fn a_line_of_a_sign_is_as_wide_as_its_letters() {
    assert!(text_width("iiii") < text_width("mmmm"));
    assert_eq!(text_width(""), 0);
    assert!(fits("hello", 90));
    assert!(!fits("mmmmmmmmmmmmmmmmmmmmmmmmm", 90));
    assert!(is_sign("minecraft:sign"));
    assert!(is_sign("minecraft:hanging_sign"));
    assert!(!is_sign("minecraft:chest"));
}

#[test]
fn a_command_block_is_edited_once_its_command_has_come() {
    let mut editor = CommandEditor::new(pos(0, 0, 0));
    assert_eq!(said(type_into_command_block(&mut editor, "say", None, true)).0, "EDITOR_NOT_LOADED");
    let data = doc(r#"{"Command": "say hi", "TrackOutput": 1, "auto": 0}"#);
    editor.load(&data, "minecraft:chain_command_block", false);
    assert!(editor.loaded);
    assert_eq!(editor.command, "say hi");
    assert!(matches!(editor.mode, Mode::Sequence));
    assert_eq!(said(type_into_command_block(&mut editor, "stop", None, true)).0, "FIELD_NOT_NAMED");
    assert_eq!(said(type_into_command_block(&mut editor, "stop", Some("previous"), true)).0, "NOTHING_TYPED");
    type_into_command_block(&mut editor, "stop", Some("console command"), true).unwrap_or_else(|failure| panic!("{}", failure.message));
    assert_eq!(editor.command, "stop");

    let mut open = Some(editor);
    let (sending, answer) = press_command(&mut open, "Done").unwrap_or_else(|failure| panic!("{}", failure.message));
    assert!(matches!(sending, Sending::Command(editor) if editor.command == "stop"));
    assert_eq!(answer.text, "pressed \"Done\"");
    assert!(open.is_none());
    let opened = opened_command_block("minecraft:repeating_command_block", true, 2, pos(0, 0, 0)).unwrap();
    assert_eq!((opened.loaded, opened.command.as_str(), opened.previous_output.as_str()), (false, "", "-"));
    assert!(opened.track_output && !opened.conditional && !opened.automatic);
    assert!(opened_command_block("minecraft:command_block", true, 2, pos(0, 0, 0)).is_some());
    assert!(opened_command_block("minecraft:command_block", false, 2, pos(0, 0, 0)).is_none());
    assert!(opened_command_block("minecraft:stone", true, 2, pos(0, 0, 0)).is_none());
}

#[test]
fn what_is_on_top_is_named_where_nothing_can_be_typed_or_pressed() {
    let nothing = OnTop { book: false, menu: None };
    assert_eq!(
        nothing_to_type_into(nothing).message,
        "no screen is open, so there is nothing to type into"
    );
    let anvil = OnTop { book: false, menu: Some(("AnvilScreen", true)) };
    assert_eq!(nothing_to_type_into(anvil).code, "UNSUPPORTED_INPUT");
    let book = OnTop { book: true, menu: None };
    assert_eq!(press_nothing(book, "Done").message, "no button matching \"Done\" on BookViewScreen; it offers none");
    let (mut sign, mut command) = (Some(sign()), None);
    assert!(close(&mut sign, &mut command).is_some());
    assert!(sign.is_none());
    assert!(close(&mut sign, &mut command).is_none());
}

#[test]
fn a_block_entity_is_read_where_its_block_still_stands() {
    let mut kept = BlockEntities::new();
    let data = doc(r#"{"front_text": {"messages": ["a", "b", "", "d"]}}"#);
    let entity = BlockEntity { kind: "minecraft:sign".to_owned(), block: Some("minecraft:oak_sign".to_owned()), data };
    kept.keep(pos(17, 64, -1), entity);
    assert!(kept.at(pos(17, 64, -1), "minecraft:oak_sign").is_some());
    assert!(kept.at(pos(17, 64, -1), "minecraft:air").is_none());
    let (lines, _) = sign_face(&kept.at(pos(17, 64, -1), "minecraft:oak_sign").unwrap().data, "front_text");
    assert_eq!(lines, vec!["a", "b", "", "d"]);
    let answer = read_block_entity(&kept, "minecraft:oak_sign", pos(17, 64, -1));
    assert!(answer.data.is_some());
    kept.forget_chunk(1, -1);
    assert!(kept.at(pos(17, 64, -1), "minecraft:oak_sign").is_none());
}

fn window(menu: Menu, slots: usize) -> Window {
    Window { id: 3, menu, title: Json::text("Menu"), slots: (0..slots).map(|_| None).collect() }
}

#[test]
fn a_lectern_is_no_window_and_one_that_is_not_filled_is_waited_for() {
    let chest = window(Menu::Generic9x3, 63);
    let lectern = window(Menu::Lectern, 1);
    assert!(open(Some(&chest)).is_some());
    assert!(open(Some(&lectern)).is_none());
    assert!(filled(Some(&chest), Some(2)).is_none());
    assert!(filled(Some(&chest), Some(3)).is_some());
    assert_eq!(said(require(None)).0, "NO_WINDOW");
    assert_eq!(screen(Menu::Generic9x3), "ContainerScreen");
    let mut full = window(Menu::Generic9x3, 63);
    full.slots[2] = Some(stack(5, "stone", 3));
    let data = value(&read_window(Some(&full)).data.unwrap());
    assert_eq!(data["window"]["inventorySlots"], parsed("[27, 62]"));
    assert_eq!(data["window"]["containerSlots"], parsed("[0, 26]"));
    let none = value(&read_window(None).data.unwrap());
    assert_eq!(none, parsed(r#"{"window": null}"#));
}

#[test]
fn a_click_is_made_as_its_mode_says() {
    let pickup = input("click", "right", false, 0).unwrap_or_else(|failure| panic!("{}", failure.message));
    assert!(matches!(pickup, (ClickType::Pickup, 1)));
    let quick = input("click", "left", true, 0).unwrap_or_else(|failure| panic!("{}", failure.message));
    assert!(matches!(quick, (ClickType::QuickMove, 0)));
    assert!(input("dance", "left", false, 0).is_err());

    let args = ClickArgs::parse(&doc(r#"{"slot": 13, "button": "left", "shift": false, "mode": "click"}"#))
        .unwrap_or_else(|failure| panic!("{}", failure.message));
    assert!(matches!(
        args.landing(63).unwrap_or_else(|failure| panic!("{}", failure.message)),
        Landing::Slot { slot: 13, click: ClickType::Pickup, key: 0 }
    ));
    assert!(args.landing(5).is_err());
}

#[test]
fn a_drag_names_each_slot_once() {
    let written = labels(&["1", "2", "3"]);
    let slots = drag_slots(&doc(r#"{"slots": [1, 2, 3]}"#), &written, 10)
        .unwrap_or_else(|failure| panic!("{}", failure.message));
    assert_eq!(slots, vec![1, 2, 3]);
    assert!(drag_slots(&doc(r#"{"slots": [1, 2, 1]}"#), &written, 10).is_err());
    assert!(drag_slots(&doc(r#"{"slots": [1, 2, 30]}"#), &written, 10).is_err());
    let kind = drag_kind("right").unwrap_or_else(|failure| panic!("{}", failure.message));
    let clicks: Vec<(Option<usize>, u8)> = drag_clicks(&slots, kind).iter().map(|click| (click.slot, click.button)).collect();
    assert_eq!(clicks, vec![(None, 4), (Some(1), 5), (Some(2), 5), (Some(3), 5), (None, 6)]);
    assert!(dropping(&doc(r#"{"slot": 99}"#), 10).is_err());
}

#[test]
fn what_is_on_the_screen_is_what_closes() {
    let on = |credits: bool, dialog: Option<bool>, window: Option<Menu>| OnScreen {
        credits,
        book: false,
        dialog,
        editor: false,
        window,
    };
    assert!(matches!(closing(on(true, None, Some(Menu::Anvil))), Closing::Credits));
    assert!(matches!(closing(on(false, Some(true), None)), Closing::Dialog));
    assert!(matches!(closing(on(false, Some(false), None)), Closing::Stays));
    assert!(matches!(closing(on(false, None, Some(Menu::Lectern))), Closing::Lectern));
    assert!(matches!(closing(on(false, None, None)), Closing::Nothing));
    assert!(use_container("minecraft:chest", pos(1, 2, 3)).is_ok());
    assert!(use_container("minecraft:stone", pos(1, 2, 3)).is_err());
}

#[test]
fn a_window_is_waited_for_by_its_title() {
    let awaited = Awaited::parse(&doc(r#"{"titlePattern": "^Me", "timeoutMs": 500}"#))
        .unwrap_or_else(|failure| panic!("{}", failure.message));
    let chest = window(Menu::Generic9x3, 63);
    let found = awaited.found(Some(&chest), Some(3)).is_some();
    assert!(awaited.over(true, 0));
    assert!(awaited.over(false, 500));
    assert!(!awaited.over(false, 499));
    assert!(found);
}

#[test]
fn a_window_that_opens_has_no_contents_till_they_come() {
    let mut kept = WindowHeld { id: 3, state: 0, cursor: None, contents: Some(3) };
    received(&mut kept, Arrival::Opened);
    assert_eq!(kept.contents, None);
    received(&mut kept, Arrival::Filled { id: 3, state: 9, cursor: Some(stack(5, "stone", 2)) });
    assert_eq!(kept.contents, Some(3));
    assert_eq!(kept.cursor.as_ref().map(|stack| stack.count), Some(2));
}

fn known() -> Known {
    let mut known = Known::new(labels(&["air", "stone", "oak_planks", "birch_planks", "stone_slab"]));
    let mut menus = Menus::new();
    keep_game(
        &mut menus,
        &mut known,
        MenuPacket::UpdateTags(vec![("minecraft:item".to_owned(), vec![("minecraft:planks".to_owned(), vec![2, 3])])]),
    );
    known
}

#[test]
fn a_tag_stands_for_its_first_member() {
    let known = known();
    assert_eq!(first_item(&SlotDisplay::Tag("minecraft:planks".to_owned()), &known), Some((2, 1)));
    assert_eq!(first_item(&SlotDisplay::Tag("minecraft:none".to_owned()), &known), None);
    let composite = SlotDisplay::Composite(vec![SlotDisplay::Other, SlotDisplay::Stack(4, 6)]);
    assert_eq!(first_item(&SlotDisplay::WithRemainder(Box::new(composite)), &known), Some((4, 6)));
    assert!(known.accepts(&Allowed::Named("minecraft:planks".to_owned()), 3));
    assert!(!known.accepts(&Allowed::Direct(vec![1]), 3));
}

#[test]
fn the_values_of_a_menu_are_its_windows() {
    let (mut menus, mut known) = (Menus::new(), known());
    keep_game(&mut menus, &mut known, MenuPacket::SetData { id: 4, index: 0, value: 9 });
    assert_eq!(menus.value(4, 0), Some(9));
    assert_eq!(menus.value(5, 0), None);
    keep_game(&mut menus, &mut known, MenuPacket::OpenScreen { id: 4 });
    assert_eq!(menus.value(4, 0), None);
    let entries = vec![RegistryEntry {
        path: "mending".to_owned(),
        description: None,
        max_level: Some(1),
        translation_key: None,
    }];
    keep_game(&mut menus, &mut known, MenuPacket::RegistryData { registry: "minecraft:enchantment".to_owned(), entries });
    assert_eq!(known.entry("minecraft:enchantment", 0).map(|entry| entry.path.as_str()), Some("mending"));
}

fn reading(menu: Menu, slots: Vec<Option<Stack>>, data: Vec<Option<i32>>) -> Reading {
    Reading {
        menu,
        title: Json::text("Menu"),
        slots,
        known: known(),
        stonecutter: vec![Cutting { input: Allowed::Direct(vec![1]), display: SlotDisplay::Stack(4, 2) }],
        data,
        level: 0,
        creative: false,
        may_build: true,
        pages: 3,
        dye: None,
        patterns: Patterns::Nothing,
        language: Table::new(),
        item_names: labels(&["Air", "Stone", "Oak Planks", "Birch Planks", "Stone Slab"]),
        effects: labels(&["speed", "slowness", "haste", "mining_fatigue", "strength"]),
    }
}

#[test]
fn a_stonecutter_offers_what_it_cuts() {
    let cutter = reading(Menu::Stonecutter, vec![Some(stack(1, "stone", 3)), None], vec![Some(-1)]);
    let choices = cutter.choices();
    assert_eq!(choices.len(), 1);
    assert_eq!(choices[0].count, Some(2));
    let (button, _) = choose_option(&cutter, "stone slab").unwrap_or_else(|failure| panic!("{}", failure.message));
    assert_eq!(button, Some(0));
    assert!(choose_option(&cutter, "dirt").is_err());
    let (button, told) = press_option(&cutter, None, 7).unwrap_or_else(|failure| panic!("{}", failure.message));
    assert_eq!((button, told.as_str()), (Some(7), "Pressed button 7 on minecraft:stonecutter."));
    let (option, button) = press_args(&doc(r#"{"button": 0}"#)).unwrap_or_else(|failure| panic!("{}", failure.message));
    assert_eq!((option, button), (None, 0));
}

#[test]
fn a_beacon_is_asked_for_one_effect_or_two() {
    assert_eq!(beacon_args(&doc(r#"{"primary": "speed", "secondary": null}"#)).ok(), Some(("speed".to_owned(), None)));
    assert_eq!(
        beacon_args(&doc(r#"{"primary": "speed", "secondary": "regeneration"}"#)).ok(),
        Some(("speed".to_owned(), Some("regeneration".to_owned())))
    );
    assert_eq!(beacon_args(&doc(r#"{"primary": "speed", "secondary": 3}"#)).err().map(|failure| failure.message), Some("expected a string for secondary".to_owned()));
    let answer = container_options(None);
    assert_eq!(answer.text, "read-container-options");
    assert_eq!(answer.data.map(|data| value(&data)), Some(parsed(r#"{"window": null}"#)));
}

#[test]
fn the_off_hand_took_what_a_swap_left_behind() {
    assert!(off_hand_took(Some(40), true, true));
    assert!(!off_hand_took(Some(40), true, false));
    assert!(!off_hand_took(Some(40), false, true));
    assert!(!off_hand_took(Some(3), true, true));
    assert!(!off_hand_took(None, true, true));
}

#[test]
fn a_part_of_two_names_is_refused_and_a_whole_name_is_not() {
    let mut cutter = reading(Menu::Stonecutter, vec![Some(stack(1, "stone", 3)), None], vec![Some(-1)]);
    cutter.stonecutter = vec![
        Cutting { input: Allowed::Direct(vec![1]), display: SlotDisplay::Stack(2, 1) },
        Cutting { input: Allowed::Direct(vec![1]), display: SlotDisplay::Stack(3, 1) },
    ];
    match choose_option(&cutter, "planks") {
        Err(failure) => assert_eq!(failure.code, "AMBIGUOUS_OPTION"),
        Ok(_) => panic!("picked one of two"),
    }
    match choose_option(&cutter, "birch planks") {
        Ok((button, _)) => assert_eq!(button, Some(1)),
        Err(failure) => panic!("{}", failure.message),
    }
    match choose_option(&cutter, "dirt") {
        Err(failure) => assert_eq!(failure.code, "NO_SUCH_OPTION"),
        Ok(_) => panic!("picked none of them"),
    }
}

#[test]
fn a_lectern_turns_to_the_page_that_is_asked_for() {
    let (button, _) = turn_to("2", 3, 0, Menu::Lectern).unwrap_or_else(|failure| panic!("{}", failure.message));
    assert_eq!(button, Some(101));
    assert!(turn_to("9", 3, 0, Menu::Lectern).is_err());
    let lectern = reading(Menu::Lectern, vec![None], vec![Some(0)]);
    let (button, _) = press_option(&lectern, Some("Page 3"), -1).unwrap_or_else(|failure| panic!("{}", failure.message));
    assert_eq!(button, Some(102));
}

#[test]
fn a_beacon_takes_what_its_levels_allow() {
    let beacon = reading(Menu::Beacon, vec![Some(stack(1, "stone", 1))], vec![Some(1), Some(-1), Some(-1)]);
    let speed = effect(&beacon, "Speed").unwrap_or_else(|failure| panic!("{}", failure.message));
    assert_eq!(speed, 0);
    assert!(effect(&beacon, "flying").is_err());
    let strength = effect(&beacon, "strength").unwrap_or_else(|failure| panic!("{}", failure.message));
    assert!(check(&beacon, strength, None).is_err());
    assert!(check(&beacon, speed, None).is_ok());
    assert!(set_beacon(&beacon, "speed", None).is_ok());
}

#[test]
fn a_book_is_read_where_it_is_open() {
    let empty = || Book { written: None, writable: None };
    let written = Book {
        written: Some(Written {
            title: "Tale".to_owned(),
            author: "Amy".to_owned(),
            generation: 0,
            pages: vec![Json::text("one"), Json::text("two")],
        }),
        writable: None,
    };
    let answer = read_book(&Showing::Nothing, Some(Hand::Main), &written, &empty())
        .unwrap_or_else(|failure| panic!("{}", failure.message));
    let data = value(&answer.data.unwrap());
    assert_eq!(data["title"], Value::from("Tale"));
    assert_eq!(data["pages"].as_array().map(Vec::len), Some(2));
    assert!(read_book(&Showing::Nothing, None, &empty(), &empty()).is_err());
}

#[test]
fn a_name_is_compared_without_its_case_or_namespace() {
    assert_eq!(needle("  Minecraft:DIAMOND "), "diamond");
    assert_eq!(needle("İ"), "i\u{307}");
}
