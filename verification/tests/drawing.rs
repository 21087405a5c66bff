//! What is drawn: lines of text, and the scoreboard over the game.
use bot_azalea::hud::{
    keep, Bar, BossBarColor, BossBarOverlay, Dimension, GameEvent, Hud, NumberFormat, Objective, Operation,
    Packet, Slot, Team, TeamMethod,
};
use bot_azalea::json::{Fraction, Json, Number};
use bot_azalea::pattern::Pattern;
use bot_azalea::style::{nbt_style, ChatFormatting, StyleTag};
use bot_azalea::text::{readable, segments, Leaf, Line};
use bot_azalea::tools::hud::{
    boss_bars, color, dividers, player_list, scoreboard, slot, Online, Shown,
};
use bot_azalea::tools::player::{game_mode, player_state, ridden, vehicle, GameMode, Ridden, State};
use bot_azalea::tools::text::one_decimal;
use serde_json::Value;

/// A document as the library holds one.
fn json(value: &Value) -> Json {
    match value {
        Value::Null => Json::Null,
        Value::Bool(b) => Json::Bool(*b),
        Value::Number(n) => Json::Number(number(n)),
        Value::String(text) => Json::Text(text.clone()),
        Value::Array(items) => Json::Array(items.iter().map(json).collect(), String::new()),
        Value::Object(fields) => Json::Object(
            fields.iter().map(|(name, value)| (name.clone(), json(value))).collect(),
            String::new(),
        ),
    }
}

fn number(n: &serde_json::Number) -> Number {
    if let Some(whole) = n.as_i64() {
        return Number::Whole(whole);
    }
    if let Some(large) = n.as_u64() {
        return Number::Large(large);
    }
    let f = n.as_f64().unwrap();
    Number::Fraction(Fraction {
        bits: f.to_bits(),
        whole: if f.fract() == 0.0 { Some(f as i64) } else { None },
        floor: f.floor() as i32,
        cut: f as i32,
    })
}

/// A document of the library as anybody else holds one.
fn value(json: &Json) -> Value {
    match json {
        Json::Null => Value::Null,
        Json::Bool(b) => Value::from(*b),
        Json::Number(Number::Whole(n)) => Value::from(*n),
        Json::Number(Number::Large(n)) => Value::from(*n),
        Json::Number(Number::Fraction(f)) => Value::from(f64::from_bits(f.bits)),
        Json::Text(text) => Value::from(text.as_str()),
        Json::Array(items, _) => Value::Array(items.iter().map(value).collect()),
        Json::Object(fields, _) => {
            Value::Object(fields.iter().map(|(name, field)| (name.clone(), value(field))).collect())
        }
    }
}

fn parsed(text: &str) -> Value {
    serde_json::from_str(text).unwrap()
}

fn doc(text: &str) -> Json {
    json(&parsed(text))
}

/// The leaves of a component in the order they are drawn, each with the font and the colour it
/// inherits.
fn leaves(component: &Value, font: Option<&str>, color: Option<&str>, out: &mut Vec<Leaf>) {
    let leaf = |text: &str, font: Option<&str>, color: Option<&str>| Leaf {
        text: text.to_owned(),
        font: font.map(str::to_owned),
        color: color.map(str::to_owned),
    };
    match component {
        Value::String(text) => out.push(leaf(text, font, color)),
        Value::Array(parts) => {
            for part in parts {
                leaves(part, font, color, out);
            }
        }
        other => {
            let font = other.get("font").and_then(Value::as_str).or(font);
            let color = other.get("color").and_then(Value::as_str).or(color);
            out.push(leaf(other["text"].as_str().unwrap_or(""), font, color));
            for part in other.get("extra").and_then(Value::as_array).into_iter().flatten() {
                leaves(part, font, color, out);
            }
        }
    }
}

fn drawn(component: &str) -> (Vec<Leaf>, String) {
    let mut out = Vec::new();
    leaves(&parsed(component), None, None, &mut out);
    let raw = out.iter().map(|leaf| leaf.text.as_str()).collect();
    (out, raw)
}

fn line(component: &str) -> Line {
    let (leaves, raw) = drawn(component);
    Line::of(&leaves, raw)
}

#[test]
fn pieces_with_no_font_run_together_as_drawn() {
    let line = line(r#"{"text": "Hello ", "extra": [{"text": "world", "color": "red"}, " and welcome"]}"#);
    assert_eq!(line.shown, "Hello world and welcome");
    assert_eq!(line.readable, "Hello world and welcome");
}

#[test]
fn a_font_labels_its_piece_and_separates_the_rest() {
    let line = line(
        r#"{"text": "", "extra": [
            {"text": "Mana", "font": "hyperfarm:hud/illageralt"},
            " ",
            {"text": "10/20", "color": "aqua"}
        ]}"#,
    );
    assert_eq!(line.shown, "[hud/illageralt] Mana | 10/20");
    assert_eq!(line.readable, "Mana 10/20");
}

const PAGE: &str = r#"{"text": "", "extra": [
    {"text": "", "font": "mcagents:ui/background"},
    {"text": "1/2", "font": "mcagents:ui/page_6"}
]}"#;

#[test]
fn a_piece_that_is_only_glyphs_is_a_spacer_and_dropped() {
    let line = line(PAGE);
    assert_eq!(line.shown, "[ui/page_6] 1/2");
    assert_eq!(line.readable, "1/2");
    assert_eq!(line.raw, "\u{E000}1/2");
}

#[test]
fn a_leaf_that_was_only_ever_a_space_is_kept() {
    assert_eq!(line(r#"["Cleared 0", " ", "[Track]"]"#).shown, "Cleared 0 [Track]");
}

#[test]
fn nothing_readable_shows_as_the_text_it_reads() {
    let line = line(r#"{"text": "", "font": "hyperfarm:hud/bars"}"#);
    assert_eq!(line.shown, "\u{E001}\u{E002}");
    assert_eq!(line.readable, "");
}

#[test]
fn a_font_is_labelled_without_its_namespace() {
    assert_eq!(line(r#"{"text": "Quest", "font": "hyperfarm:sidebar/title"}"#).shown, "[sidebar/title] Quest");
    assert_eq!(line(r#"{"text": "Quest", "font": "sidebar/title"}"#).shown, "[sidebar/title] Quest");
}

/// A component built from a string keeps its codes as text, the way an owner named "§7" does.
#[test]
fn colour_codes_go_with_the_glyphs() {
    assert_eq!(readable("§7Harvest §Awheat\u{E000} §x"), "Harvest wheat §x");
    assert_eq!(readable("§8"), "");

    let coded = line(r#""§7Harvest wheat""#);
    assert_eq!(coded.raw, "§7Harvest wheat");
    assert_eq!(coded.readable, "Harvest wheat");
    assert_eq!(coded.shown, "Harvest wheat");
    assert_eq!(line(r#""§8""#).shown, "§8");
}

#[test]
fn a_pattern_matches_any_of_the_three_wordings() {
    let line = line(PAGE);
    assert!(line.matches(&Pattern::new(r"^\[ui/page_6\] 1/2$").unwrap()));
    assert!(line.matches(&Pattern::new("^1/2$").unwrap()));
    assert!(line.matches(&Pattern::new("^\u{E000}1/2$").unwrap()));
    assert!(!line.matches(&Pattern::new("^2/2$").unwrap()));
}

#[test]
fn the_pieces_of_a_bar_stay_apart() {
    let (leaves, _) = drawn(
        r#"["Cleared 0", {"text": "", "font": "a:b"}, {"text": "[Track]", "color": "aqua", "font": "minecraft:default"}]"#,
    );
    assert_eq!(
        value(&segments(&leaves)),
        parsed(r#"[{"text": "Cleared 0"}, {"text": "[Track]", "color": "aqua"}]"#)
    );
}

#[test]
fn a_next_line_control_is_no_blank() {
    let (leaves, _) = drawn(r#"["\u0085\ue000", " \ue000", "\u001c\ue000"]"#);
    assert_eq!(value(&segments(&leaves)), parsed(r#"[{"text": "\u0085"}]"#));
}

#[test]
fn rounds_the_decimal_a_reader_sees_rather_than_the_binary_under_it() {
    let one_decimal = |value: f64| one_decimal(&value.abs().to_string(), value < 0.0);
    assert_eq!(one_decimal(0.35), "0.4");
    assert_eq!(one_decimal(2.25), "2.3");
    assert_eq!(one_decimal(9.96), "10.0");
    assert_eq!(one_decimal(3.0), "3.0");
    assert_eq!(one_decimal(-1.25), "-1.3");
    assert_eq!(one_decimal(1e30), "1000000000000000000000000000000.0");
    assert_eq!(one_decimal(0.96), "1.0");
    assert_eq!(one_decimal(199.95), "200.0");
}

fn words(text: &str) -> Json {
    Json::text(text)
}

fn apply(hud: &mut Hud, packets: Vec<Packet>) {
    for packet in packets {
        keep(hud, packet, 0);
    }
}

fn objective(name: &str, number_format: Option<NumberFormat>) -> Packet {
    Packet::SetObjective { name: name.to_owned(), objective: Some(Objective { title: words(name), number_format }) }
}

/// The display slots as the protocol numbers them.
const LIST: usize = 0;
const SIDEBAR: usize = 1;
const BELOW_NAME: usize = 2;
const TEAM_RED: usize = 15;

fn display(slot: usize, objective: &str) -> Packet {
    Packet::SetDisplayObjective { slot, name: objective.to_owned() }
}

fn score(owner: &str, objective: &str, value: i32) -> Packet {
    Packet::SetScore {
        owner: owner.to_owned(),
        objective: objective.to_owned(),
        score: value as u32,
        display: None,
        number_format: None,
    }
}

fn parameters(prefix: &str, suffix: &str, color: ChatFormatting) -> Team {
    Team { color, prefix: words(prefix), suffix: words(suffix) }
}

fn team(name: &str, method: TeamMethod) -> Packet {
    Packet::SetPlayerTeam { name: name.to_owned(), method }
}

fn members(names: &[&str]) -> Vec<String> {
    names.iter().map(|name| (*name).to_owned()).collect()
}

fn quest_log() -> Hud {
    let mut hud = Hud::new();
    apply(
        &mut hud,
        vec![
            objective("lines", Some(NumberFormat::Blank)),
            display(SIDEBAR, "lines"),
            team("l3", TeamMethod::Add(parameters("Harvest wheat", "3/10", ChatFormatting::Reset), members(&["§7"]))),
            score("§7", "lines", 3),
            team("l2", TeamMethod::Add(parameters("", "", ChatFormatting::Gray), members(&["§8"]))),
            score("§8", "lines", 2),
            team("l1", TeamMethod::Add(parameters("» ", "", ChatFormatting::Reset), members(&["§9"]))),
            Packet::SetScore {
                owner: "§9".to_owned(),
                objective: "lines".to_owned(),
                score: 1,
                display: Some(words("Reward")),
                number_format: Some(NumberFormat::Fixed(words("50g"))),
            },
            score("#hidden", "lines", 9),
        ],
    );
    hud
}

fn title(hud: &Hud, me: &str) -> String {
    hud.board(Slot::Sidebar, me).unwrap().0.title.words()
}

fn name(hud: &Hud, at: usize) -> Json {
    hud.board(Slot::Sidebar, "me").unwrap().1[at].name.copy()
}

#[test]
fn a_sidebar_draws_each_name_in_its_team_and_the_score_as_the_format_says() {
    let hud = quest_log();
    let (objective, lines) = hud.board(Slot::Sidebar, "me").unwrap();

    assert_eq!(objective.title.words(), "lines");
    let drawn: Vec<(String, i32, String)> =
        lines.iter().map(|line| (line.name.words(), line.score, line.value.words())).collect();
    assert_eq!(
        drawn,
        vec![
            ("Harvest wheat§73/10".to_owned(), 3, "".to_owned()),
            ("§8".to_owned(), 2, "".to_owned()),
            ("» Reward".to_owned(), 1, "50g".to_owned()),
        ]
    );
    assert_eq!(value(&lines[1].name), parsed(r#"{"text": "", "color": "gray", "extra": ["", "§8", ""]}"#));
    assert_eq!(value(&lines[0].value), parsed(r#""""#));
}

#[test]
fn the_list_and_below_name_slots_draw_every_owner_bare_with_the_slots_own_style() {
    let mut hud = quest_log();
    apply(&mut hud, vec![objective("stats", None), display(LIST, "stats"), score("#hidden", "stats", 9)]);
    apply(&mut hud, vec![display(BELOW_NAME, "lines"), score("Steve", "lines", 4)]);

    let (_, lines) = hud.board(Slot::List, "me").unwrap();
    assert_eq!(lines.len(), 1);
    assert_eq!(value(&lines[0].name), parsed(r##""#hidden""##));
    assert_eq!(value(&lines[0].value), parsed(r#"{"text": "9", "color": "yellow"}"#));

    let (_, lines) = hud.board(Slot::BelowName, "me").unwrap();
    let names: Vec<String> = lines.iter().map(|line| line.name.words()).collect();
    assert_eq!(names, vec!["#hidden", "Steve", "§7", "§8", "Reward"]);
    assert_eq!(value(&lines[1].name), parsed(r#""Steve""#));
}

#[test]
fn a_sidebar_stops_at_fifteen_lines_after_leaving_out_the_hidden() {
    let mut hud = Hud::new();
    apply(&mut hud, vec![objective("many", None), display(SIDEBAR, "many"), score("#top", "many", 99)]);
    apply(&mut hud, (0..16).map(|n| score(&format!("line{n:02}"), "many", n)).collect());

    let (_, lines) = hud.board(Slot::Sidebar, "me").unwrap();
    assert_eq!(lines.len(), 15);
    assert_eq!(lines[0].name.words(), "line15");
    assert_eq!(value(&lines[0].value), parsed(r#"{"text": "15", "color": "red"}"#));
    assert_eq!(lines[14].name.words(), "line01");
}

#[test]
fn the_sidebar_is_the_one_the_players_team_colour_names_when_that_slot_is_filled() {
    let mut hud = quest_log();
    apply(
        &mut hud,
        vec![
            objective("red", None),
            display(TEAM_RED, "red"),
            team("reds", TeamMethod::Add(parameters("", "", ChatFormatting::Red), members(&["me"]))),
            team("bold", TeamMethod::Add(parameters("", "", ChatFormatting::Bold), members(&["other"]))),
        ],
    );

    assert_eq!(title(&hud, "me"), "red");
    assert_eq!(title(&hud, "other"), "lines");
    assert_eq!(title(&hud, "nobody"), "lines");

    apply(&mut hud, vec![display(TEAM_RED, "")]);
    assert_eq!(title(&hud, "me"), "lines");
}

#[test]
fn membership_follows_the_teams_own_rules() {
    let mut hud = quest_log();

    /* Leaving a team the entry is not on changes nothing; joining another moves it. */
    apply(&mut hud, vec![team("l2", TeamMethod::Leave(members(&["§7"])))]);
    assert_eq!(name(&hud, 0).words(), "Harvest wheat§73/10");
    apply(&mut hud, vec![team("l2", TeamMethod::Join(members(&["§7"])))]);
    assert_eq!(name(&hud, 0).words(), "§7");
    apply(&mut hud, vec![team("l2", TeamMethod::Leave(members(&["§7"])))]);
    assert_eq!(value(&name(&hud, 0)), parsed(r#""§7""#));

    /* A change keeps the members; a removal drops them with the team. */
    apply(&mut hud, vec![team("l1", TeamMethod::Change(parameters("- ", "", ChatFormatting::Gold)))]);
    assert_eq!(name(&hud, 2).words(), "- Reward");
    apply(&mut hud, vec![team("l1", TeamMethod::Remove)]);
    assert_eq!(name(&hud, 2).words(), "Reward");

    /* A team the client was never told of takes no members. */
    apply(&mut hud, vec![team("ghost", TeamMethod::Join(members(&["§9"])))]);
    assert_eq!(name(&hud, 2).words(), "Reward");
}

/// Bold is a format and no colour: it draws the names bold and nothing else.
#[test]
fn a_team_coloured_bold_on_the_wire_draws_its_names_bold() {
    let mut hud = quest_log();
    apply(&mut hud, vec![team("b", TeamMethod::Add(parameters("", "", ChatFormatting::Bold), members(&["§7"])))]);
    let name = value(&name(&hud, 0));
    assert_eq!(name["bold"], Value::from(true));
    assert_eq!(name.get("strikethrough"), None);
}

/// The style is network NBT: the colour by name, and the flags as bytes.
#[test]
fn a_styled_number_format_carries_its_style_as_unnamed_nbt() {
    let none = || StyleTag {
        color: None,
        bold: None,
        italic: None,
        underlined: None,
        strikethrough: None,
        obfuscated: None,
        font: None,
    };
    let red = nbt_style(StyleTag { color: Some("red".to_owned()), bold: Some(1), italic: Some(0), ..none() });
    assert_eq!(red.color.as_deref(), Some("red"));
    assert_eq!((red.bold, red.italic, red.underlined), (Some(true), Some(false), None));
    let plain = nbt_style(none());
    assert!(plain.color.is_none() && plain.bold.is_none() && plain.font.is_none());

    let mut hud = Hud::new();
    apply(
        &mut hud,
        vec![objective("gold", Some(NumberFormat::Styled(red))), display(SIDEBAR, "gold"), score("me", "gold", 7)],
    );
    let (_, lines) = hud.board(Slot::Sidebar, "me").unwrap();
    assert_eq!(value(&lines[0].value)["text"], Value::from("7"));
    assert_eq!(value(&lines[0].value)["color"], Value::from("red"));
}

#[test]
fn a_login_forgets_the_server_before_it() {
    let mut hud = quest_log();
    keep(&mut hud, Packet::GameEvent(GameEvent::StartRaining), 0);
    let dimension = Dimension { kind: 0, name: "minecraft:overworld".to_owned() };
    keep(&mut hud, Packet::Login { player_id: 7, secure_chat: true, dimension }, 0);
    assert!(hud.board(Slot::Sidebar, "me").is_none());
    assert_eq!((hud.logins, hud.player_id, hud.rain), (1, Some(7), 0));
}

#[test]
fn a_board_is_answered_with_its_lines_and_none_is_null() {
    let hud = quest_log();
    let args = doc(r#"{"slot": "sidebar"}"#);
    let (wanted, which) = slot(&args);
    let told = scoreboard(wanted, hud.board(which, "me"));
    assert_eq!(told.text, "read-scoreboard");
    let data = value(&told.data.unwrap());
    assert_eq!(data["board"]["title"], Value::from("lines"));
    assert_eq!(data["board"]["entries"][2]["name"], Value::from("» Reward"));
    assert_eq!(data["board"]["entries"][2]["score"], Value::from(1));

    let args = doc(r#"{"slot": "belowName"}"#);
    let (wanted, which) = slot(&args);
    let none = scoreboard(wanted, hud.board(which, "me"));
    assert_eq!(value(&none.data.unwrap()), parsed(r#"{"slot": "belowName", "board": null}"#));
    assert!(matches!(slot(&doc("{}")), (_, Slot::Sidebar)));
}

#[test]
fn bars_are_kept_in_the_order_they_came_and_answered_so() {
    let mut hud = Hud::new();
    let add = |id: u128, text: &str| Packet::BossEvent {
        id,
        operation: Operation::Add {
            name: words(text),
            progress: 0x3f00_0000,
            color: BossBarColor::Purple,
            overlay: BossBarOverlay::Notched12,
        },
    };
    apply(&mut hud, vec![add(1, "Ender"), add(2, "Wither")]);
    keep(&mut hud, Packet::BossEvent { id: 1, operation: Operation::UpdateName(words("Ender Dragon")) }, 0);
    let names: Vec<String> = hud.bars.iter().map(|bar: &Bar| bar.name.words()).collect();
    assert_eq!(names, vec!["Ender Dragon", "Wither"]);

    let shown: Vec<Shown> = hud
        .bars
        .iter()
        .map(|bar| Shown {
            name: bar.name.copy(),
            leaves: vec![Leaf { text: bar.name.words(), font: None, color: None }],
            progress: number(&serde_json::Number::from_f64(0.5).unwrap()),
            color: bar.color,
            overlay: bar.overlay,
        })
        .collect();
    let data = value(&boss_bars(&shown).data.unwrap());
    assert_eq!(
        data["bars"][0],
        parsed(
            r#"{"title": "Ender Dragon", "progress": 0.5, "color": "purple", "dividers": 12,
                "segments": [{"text": "Ender Dragon"}], "component": "Ender Dragon"}"#
        )
    );
    assert_eq!(color(BossBarColor::White), "white");
    assert_eq!(dividers(BossBarOverlay::Progress), 0);
}

#[test]
fn the_player_list_shows_whom_the_server_lists_by_name() {
    let mut hud = Hud::new();
    keep(&mut hud, Packet::PlayerInfoUpdate { listed: vec![(1, true), (2, true), (3, false), (4, true)] }, 0);
    let online = |uuid: u128, name: &str, drawn: Option<Json>| Online {
        uuid,
        name: name.to_owned(),
        mode: GameMode::Survival,
        ping: 40,
        drawn,
    };
    let players = vec![
        online(1, "Zed", None),
        online(2, "Amy", Some(words("[VIP] Amy"))),
        online(3, "Ghost", None),
        online(4, "Bob", None),
    ];
    let data = value(&player_list(&hud, &players, "Bob").data.unwrap());
    let names: Vec<&str> = data["players"].as_array().unwrap().iter().map(|p| p["name"].as_str().unwrap()).collect();
    assert_eq!(names, vec!["Amy", "Bob", "Zed"]);
    assert_eq!(data["players"][0]["displayName"], Value::from("[VIP] Amy"));
    assert_eq!(data["players"][1]["self"], Value::from(true));
    assert_eq!(data["players"][2]["displayName"], Value::Null);
    assert_eq!(data["players"][2]["gameMode"], Value::from("survival"));
}

#[test]
fn the_stack_a_bot_rides_is_told_by_its_bottom_and_its_seat() {
    let mut hud = Hud::new();
    keep(&mut hud, Packet::SetPassengers { vehicle: 20, passengers: vec![1] }, 0);
    keep(&mut hud, Packet::SetPassengers { vehicle: 30, passengers: vec![20] }, 0);
    keep(&mut hud, Packet::SetPassengers { vehicle: 40, passengers: vec![30] }, 0);
    /* What is not loaded any more is not ridden. */
    let kind = |id: i32| match id {
        20 => Some("minecraft:armor_stand"),
        30 => Some("minecraft:horse"),
        _ => None,
    };
    let ridden_now = ridden(&hud, &kind, 1);
    assert_eq!(ridden_now, Some(Ridden { seat: 20, root: 30 }));
    assert_eq!(
        value(&vehicle(ridden_now, "minecraft:horse", "minecraft:armor_stand")),
        parsed(r#"{"type": "horse", "id": 30, "seat": {"type": "armor_stand", "id": 20}}"#)
    );
    assert_eq!(ridden(&hud, &kind, 99), None);
    assert_eq!(value(&vehicle(None, "", "")), Value::Null);
}

#[test]
fn a_stack_that_rides_itself_does_not_hang_the_call() {
    let mut hud = Hud::new();
    keep(&mut hud, Packet::SetPassengers { vehicle: 20, passengers: vec![1, 30] }, 0);
    keep(&mut hud, Packet::SetPassengers { vehicle: 30, passengers: vec![20] }, 0);
    let kind = |_: i32| Some("minecraft:pig");
    assert_eq!(ridden(&hud, &kind, 1).map(|ridden| ridden.seat), Some(20));
}

#[test]
fn the_state_of_the_player_is_told_with_air_only_where_it_is_spent() {
    let state = |air: Option<i32>| State {
        health: number(&serde_json::Number::from_f64(19.5).unwrap()),
        food: 20,
        saturation: Number::Whole(5),
        level: 3,
        progress: number(&serde_json::Number::from_f64(0.25).unwrap()),
        points: 40,
        mode: Some(GameMode::Creative),
        dimension: "overworld".to_owned(),
        at: bot_azalea::place::BlockPos { x: 1, y: 2, z: 3 },
        air,
        dead: false,
        cause_of_death: None,
    };
    let told = player_state(state(Some(299)), Json::Null);
    assert_eq!(told.text, "player state");
    let data = value(&told.data.unwrap());
    assert_eq!(data["oxygen"], Value::from(299));
    assert_eq!(data["health"], Value::from(19.5));
    assert_eq!(data["gameMode"], Value::from("creative"));
    assert_eq!(data["experience"], parsed(r#"{"level": 3, "progress": 0.25, "points": 40}"#));
    assert_eq!(value(&player_state(state(Some(300)), Json::Null).data.unwrap())["oxygen"], Value::Null);
    assert_eq!(value(&player_state(state(None), Json::Null).data.unwrap())["oxygen"], Value::Null);
    assert_eq!(game_mode(None), "");
}
