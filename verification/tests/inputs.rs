//! Inputs: one after another, one held, and ticks waited for.
use bot_azalea::calls::Failure;
use bot_azalea::json::{Fraction, Json, Number};
use bot_azalea::text::{Leaf, Line};
use bot_azalea::tools::input::{
    fits_in_time, game_takes_keys, interactive, ticks, unsettled, use_item, watched, Click, Deed, Hands,
    Hit, Key, Keys, Press, PressArgs, SentInput, Stance, Stroke, Watch,
};
use bot_azalea::tools::sequence::{parse, steps, still_waiting, Ended, Sequence, Shown, Step};
use bot_azalea::tools::wait::{asked as ticks_asked, Wait, Waiting};
use serde_json::Value;

/// A document as the library holds one.
fn json(value: &Value) -> Json {
    match value {
        Value::Null => Json::Null,
        Value::Bool(b) => Json::Bool(*b),
        Value::Number(n) => Json::Number(number(n)),
        Value::String(text) => Json::Text(text.clone()),
        Value::Array(items) => Json::Array(items.iter().map(json).collect(), String::new()),
        Value::Object(fields) => Json::Object(
            fields.iter().map(|(name, value)| (name.clone(), json(value))).collect(),
            String::new(),
        ),
    }
}

fn number(n: &serde_json::Number) -> Number {
    if let Some(whole) = n.as_i64() {
        return Number::Whole(whole);
    }
    if let Some(large) = n.as_u64() {
        return Number::Large(large);
    }
    let f = n.as_f64().unwrap();
    Number::Fraction(Fraction {
        bits: f.to_bits(),
        whole: if f.fract() == 0.0 { Some(f as i64) } else { None },
        floor: f.floor() as i32,
        cut: f as i32,
    })
}

/// A document of the library as anybody else holds one.
fn value(json: &Json) -> Value {
    match json {
        Json::Null => Value::Null,
        Json::Bool(b) => Value::from(*b),
        Json::Number(Number::Whole(n)) => Value::from(*n),
        Json::Number(Number::Large(n)) => Value::from(*n),
        Json::Number(Number::Fraction(f)) => Value::from(f64::from_bits(f.bits)),
        Json::Text(text) => Value::from(text.as_str()),
        Json::Array(items, _) => Value::Array(items.iter().map(value).collect()),
        Json::Object(fields, _) => {
            Value::Object(fields.iter().map(|(name, field)| (name.clone(), value(field))).collect())
        }
    }
}

fn parsed(text: &str) -> Value {
    serde_json::from_str(text).unwrap()
}

fn doc(text: &str) -> Json {
    json(&parsed(text))
}

/// A step as the server sends one: every field present, the ones not given at their defaults.
fn step(given: &str) -> Value {
    let mut step = parsed(
        r#"{"press": null, "slot": null, "holdTicks": 1, "click": null, "button": "left", "shift": false,
            "mode": "click", "hotbar": null, "command": null, "wait": null, "waitFor": null, "feed": "actionBar"}"#,
    );
    for (name, value) in parsed(given).as_object().unwrap() {
        step[name] = value.clone();
    }
    step
}

fn asked(given: &str) -> String {
    parse(&json(&step(given)), 0, 10_000).unwrap_or_else(|failure| panic!("{}", failure.message)).asked()
}

fn refusal(given: &str, index: usize) -> Failure {
    match parse(&json(&step(given)), index, 10_000) {
        Ok(step) => panic!("{} was not refused", step.asked()),
        Err(failure) => failure,
    }
}

#[test]
fn a_step_is_worded_as_it_was_asked() {
    assert_eq!(asked(r#"{"press": "jump"}"#), "press jump");
    assert_eq!(asked(r#"{"press": "hotbar", "slot": 0}"#), "press hotbar 0");
    assert_eq!(asked(r#"{"press": "use", "holdTicks": 40}"#), "press use for 40 ticks");
    assert_eq!(asked(r#"{"click": 13}"#), "click slot 13");
    assert_eq!(
        asked(r#"{"click": 13, "button": "right", "shift": true}"#),
        "click slot 13 with the right button with shift"
    );
    assert_eq!(
        asked(r#"{"click": 13, "mode": "swap-hotbar", "hotbar": 2}"#),
        "swap-hotbar slot 13 with hotbar 2"
    );
    assert_eq!(asked(r#"{"click": 5, "mode": "throw-one"}"#), "throw-one slot 5");
    assert_eq!(asked(r#"{"command": "fixture pling BOT"}"#), "command /fixture pling BOT");
    assert_eq!(asked(r#"{"command": "/fixture pling BOT"}"#), "command /fixture pling BOT");
    assert_eq!(asked(r#"{"wait": 1}"#), "wait 1 tick");
    assert_eq!(asked(r#"{"wait": 20}"#), "wait 20 ticks");
    assert_eq!(asked(r#"{"waitFor": "Fine day", "feed": "title"}"#), "wait for /Fine day/ on title");
}

/// The slot a press names is the hotbar key's alone, as press-input takes it.
#[test]
fn a_slot_given_to_another_key_is_not_worded() {
    assert_eq!(asked(r#"{"press": "jump", "slot": 3}"#), "press jump");
}

/// A slash is put in front of a command given without one, and nothing is taken off one that has its
/// own: a WorldEdit command starts with two, as run-command sends it.
#[test]
fn a_command_keeps_the_slashes_it_was_given() {
    for (given, sent) in [("say hi", "/say hi"), ("/say hi", "/say hi"), ("//set stone", "//set stone")] {
        match parse(&json(&step(&format!(r#"{{"command": "{given}"}}"#))), 0, 10_000) {
            Ok(Step::Command(command)) => assert_eq!(command, sent),
            _ => panic!("not a command"),
        }
    }
}

#[test]
fn a_step_naming_no_kind_or_two_is_refused_by_its_number() {
    let none = refusal("{}", 2);
    assert_eq!(none.code, "BAD_STEP");
    assert_eq!(none.message, "step 3 names none of press, click, command, wait or waitFor");

    let both = refusal(r#"{"press": "jump", "click": 13}"#, 2);
    assert_eq!(both.code, "BAD_STEP");
    assert_eq!(both.message, "step 3 names both press and click");
}

#[test]
fn hotbar_without_a_slot_is_refused() {
    let refused = refusal(r#"{"press": "hotbar"}"#, 1);
    assert_eq!(refused.code, "NO_SLOT");
    assert_eq!(refused.message, "step 2: hotbar needs slot");
}

#[test]
fn a_pattern_that_is_not_one_is_refused_with_its_step() {
    let refused = refusal(r#"{"waitFor": "("}"#, 1);
    assert_eq!(refused.code, "BAD_PATTERN");
    assert!(
        refused.message.starts_with("step 2: \"(\" is not a valid regular expression"),
        "{}",
        refused.message
    );
}

/// A click shaped wrongly is click-slot's to refuse, when the step is made in the window open then:
/// the steps before it still run, as they do on the other kind of bot.
#[test]
fn a_click_shaped_wrongly_is_a_step_until_it_is_made() {
    assert_eq!(asked(r#"{"click": 13, "mode": "throw-one", "shift": true}"#), "throw-one slot 13");
    assert_eq!(
        asked(r#"{"click": 13, "mode": "throw-one", "hotbar": 2}"#),
        "throw-one slot 13 with hotbar 2"
    );
}

#[test]
fn steps_that_take_longer_than_the_timeout_are_refused_before_any_is_made() {
    let mut args = parsed(r#"{"timeoutMs": 3000}"#);
    args["steps"] = Value::Array(vec![
        step(r#"{"press": "use", "holdTicks": 40}"#),
        step(r#"{"wait": 20}"#),
        step(r#"{"click": 1}"#),
    ]);
    let args = json(&args);
    let refused = steps(&args, 3000).err().expect("refused");
    assert_eq!(refused.code, "TOO_LONG");
    assert_eq!(refused.message, "the 3 steps take at least 3100ms, longer than timeoutMs (3000ms).");

    assert_eq!(steps(&args, 3100).map(|steps| steps.len()).ok(), Some(3));
}

#[test]
fn an_empty_sequence_is_refused() {
    assert_eq!(
        steps(&doc(r#"{"steps": []}"#), 10_000).err().map(|failure| failure.code),
        Some("BAD_ARGS".to_owned())
    );
}

/// With no connection there are no ticks to count, and the wait says so at once.
#[test]
fn without_a_connection_the_wait_says_the_bot_is_not_in_a_world() {
    let ticks = ticks_asked(&doc(r#"{"ticks": 400}"#)).unwrap_or_else(|failure| panic!("{}", failure.message));
    match Wait::new(0, ticks).look(0, false) {
        Waiting::Left(refused) => assert_eq!(refused.code, "NOT_IN_GAME"),
        Waiting::Over(answer) => panic!("waited: {}", answer.text),
        Waiting::Tick => panic!("still waiting"),
    }
}

#[test]
fn a_wait_is_over_on_its_tick() {
    let wait = Wait::new(10, 3);
    assert!(matches!(wait.look(12, true), Waiting::Tick));
    match wait.look(13, false) {
        Waiting::Over(answer) => assert_eq!(answer.text, "Waited 3 tick(s)."),
        _ => panic!("not over"),
    }
    assert_eq!(
        ticks_asked(&doc(r#"{"ticks": 0}"#)).err().map(|failure| failure.message),
        Some("ticks must be at least 1".to_owned())
    );
}

fn line(text: &str) -> Line {
    let leaf = Leaf { text: text.to_owned(), font: None, color: None };
    Line::of(&vec![leaf], text.to_owned())
}

fn watch(feed: &str, pattern: &str) -> Watch {
    Watch::parse(&doc(&format!(r#"{{"feed": "{feed}", "pattern": "{pattern}"}}"#)))
        .unwrap_or_else(|failure| panic!("{}", failure.message))
}

#[test]
fn two_waits_for_the_same_words_take_two_lines() {
    let mut shown = Shown::new();
    shown.show("chat".to_owned(), line("hello"));
    shown.show("title".to_owned(), line("Quest"));
    shown.show("title".to_owned(), line("Quest again"));
    let quest = watch("title", "Quest");
    let from = shown.begin();
    assert_eq!(from, 0);

    let first = shown.wait_for(&quest, from, 5).unwrap();
    assert_eq!(first.text_at("matched"), Some("Quest"));
    assert_eq!(first.nat_at("waitedMs"), Some(5));
    let second = shown.wait_for(&quest, from, 9).unwrap();
    assert_eq!(second.text_at("matched"), Some("Quest again"));
    assert!(shown.wait_for(&quest, from, 12).is_none());

    /* What was shown since the step before began is looked back over. */
    assert_eq!(shown.begin(), 3);
    shown.show("title".to_owned(), line("Quest"));
    assert_eq!(shown.begin(), 3);
}

#[test]
fn a_sequence_ends_with_the_step_that_is_refused() {
    let mut sequence = Sequence::new(3, 10_000);
    assert!(sequence.run("wait", "wait 2 ticks", 2, Ended::Did(Json::number(2))));
    assert!(!sequence.run("click", "click slot 1", 3, Ended::Refused(Failure::refused("NO_WINDOW", "none".to_owned()))));
    let answer = sequence.answer();
    assert_eq!(answer.text, "ran 1 of 3 step(s), refused");
    let data = value(&answer.data.unwrap());
    assert_eq!(data["ticks"], Value::from(3));
    assert_eq!(data["steps"][0]["wait"], Value::from(2));
    assert_eq!(data["steps"][1]["startedTick"], Value::from(2));
    assert_eq!(data["steps"][1]["error"], parsed(r#"{"code": "NO_WINDOW", "message": "none"}"#));

    let mut late = Sequence::new(1, 500);
    assert!(!late.run("command", "command /x", 9, Ended::TimedOut));
    let answer = late.answer();
    assert_eq!(answer.text, "ran 0 of 1 step(s), timeout");
    let data = value(&answer.data.unwrap());
    assert_eq!(
        data["steps"][0]["error"],
        parsed(r#"{"code": "TIMEOUT", "message": "timeoutMs (500) ran out during this step"}"#)
    );
    assert!(still_waiting(12, 10, 1, 2));
    assert!(!still_waiting(13, 10, 1, 2));
}

fn press(given: &str) -> Press {
    Press::new(PressArgs::parse(&doc(given)).unwrap_or_else(|failure| panic!("{}", failure.message)))
}

#[test]
fn a_press_goes_down_and_up_as_often_as_it_is_asked_to() {
    let mut press = press(r#"{"key": "jump", "holdTicks": 2, "repeat": 2, "intervalTicks": 1}"#);
    let mut strokes = Vec::new();
    for _ in 0..12 {
        strokes.push(match press.tick(true) {
            Stroke::Press => 'p',
            Stroke::Release => 'r',
            Stroke::Finish => 'f',
            Stroke::Nothing => '.',
        });
        if strokes.last() == Some(&'f') {
            break;
        }
    }
    let made: String = strokes.into_iter().filter(|stroke| *stroke == 'r' || *stroke == 'f').collect();
    assert!(made.starts_with('r'), "{made}");
    assert!(made.ends_with('f'), "{made}");
}

#[test]
fn a_press_that_cannot_fit_in_its_time_is_refused() {
    let args = PressArgs::parse(&doc(
        r#"{"key": "use", "holdTicks": 40, "repeat": 3, "intervalTicks": 10, "timeoutMs": 1000}"#,
    ))
    .unwrap_or_else(|failure| panic!("{}", failure.message));
    assert!(fits_in_time(&args).is_err());
}

#[test]
fn a_key_is_known_by_its_name_and_no_other_is() {
    assert_eq!(Key::of("swap-offhand").map(|key| key.name()).ok(), Some("swap-offhand"));
    assert_eq!(Key::of("fly").err().map(|failure| failure.code), Some("BAD_ARGS".to_owned()));
}

#[test]
fn a_screen_takes_the_keys_from_the_game() {
    assert!(game_takes_keys(false, false).is_ok());
    assert!(game_takes_keys(true, false).is_err());
    assert!(game_takes_keys(false, true).is_err());
}

#[test]
fn ticks_are_counted_in_words() {
    assert_eq!(ticks(1), "1 tick");
    assert_eq!(ticks(20), "20 ticks");
}

#[test]
fn a_pattern_that_was_made_elsewhere_is_watched_for() {
    let pattern = bot_azalea::pattern::Pattern::new("^Fine").unwrap();
    let watch = watched(&doc(r#"{"feed": "title", "pattern": "^Fine"}"#), "^Fine", pattern)
        .unwrap_or_else(|failure| panic!("{}", failure.message));
    assert!(watch.matches("title", &line("Fine day")));
    assert!(!watch.matches("chat", &line("Fine day")));
    assert!(!watch.matches("title", &line("A fine day")));
}

#[test]
fn a_key_does_what_it_does_and_undoes_it() {
    let now = Stance { crouching: false, sprinting: false, selected: 2, hand_empty: false };
    let mut sneak = Keys::new(Key::Sneak, 0);
    assert!(matches!(sneak.press(now), Deed::SetCrouching(true)));
    assert!(sneak.arrived(Some(SentInput { jump: false, shift: true, sprint: false })));
    assert!(matches!(sneak.release(), Deed::SetCrouching(false)));
    let mut up = Keys::new(Key::ScrollUp, 0);
    assert!(matches!(up.press(now), Deed::Select(1)));
    assert!(!unsettled(Key::Hotbar, true));
}

#[test]
fn a_use_lands_on_what_is_in_front() {
    let hands = Hands { crouching: false, main_empty: true, offhand_empty: true, places_block: false };
    assert!(matches!(use_item(false, Hit::Entity, hands, None), Click::Entity));
    assert!(matches!(use_item(false, Hit::Miss, hands, None), Click::InAir));
    assert!(interactive("lever"));
    assert!(!interactive("stone"));
}
