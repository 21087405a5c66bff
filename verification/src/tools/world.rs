//! The clock the world ticks on, for a feature that only happens at a certain time of day.
//!
//! Not whatever a server draws on its own HUD: that is a scoreboard or an action bar, and it can say
//! anything it likes.
use vstd::prelude::*;

use crate::calls::{Answer, AnswerView};
use crate::json::{Doc, Json};
use crate::words::same;

verus! {

pub const DAY: u64 = 24_000;

/// What the sky of a dimension is like.
#[derive(Clone, Copy, Debug, PartialEq, Eq, Structural)]
pub struct Sky {
    /// The clock that is the default, by its number.
    pub clock: Option<u32>,
    /// Whether time stands still.
    pub fixed_time: bool,
    /// Whether weather can happen at all.
    pub weather: bool,
}

/// A dimension nothing is known of has no clock and no weather.
pub fn no_sky() -> (r: Sky)
    ensures
        r == (Sky { clock: None, fixed_time: false, weather: false }),
{
    Sky { clock: None, fixed_time: false, weather: false }
}

/// The sky of a dimension, by its name and what its type says of it.
pub fn sky(
    clock: Option<u32>,
    fixed_time: bool,
    skylight: bool,
    ceiling: bool,
    dimension: &str,
) -> (r: Sky)
    ensures
        r == (Sky {
            clock,
            fixed_time,
            weather: skylight && !ceiling && dimension@ != "minecraft:the_end"@,
        }),
{
    Sky {
        clock,
        fixed_time,
        weather: skylight && !ceiling && !same(dimension, "minecraft:the_end"),
    }
}

#[derive(Clone, Copy, Debug, PartialEq, Eq, Structural)]
pub enum Weather {
    Thunder,
    Rain,
    Clear,
}

pub open spec fn weather_word(weather: Weather) -> Seq<char> {
    match weather {
        Weather::Thunder => "thunder"@,
        Weather::Rain => "rain"@,
        Weather::Clear => "clear"@,
    }
}

/// What the weather is: thundering, else raining, else clear.
pub fn weather(thundering: bool, raining: bool) -> (r: Weather)
    ensures
        r == if thundering {
            Weather::Thunder
        } else if raining {
            Weather::Rain
        } else {
            Weather::Clear
        },
{
    if thundering {
        Weather::Thunder
    } else if raining {
        Weather::Rain
    } else {
        Weather::Clear
    }
}

/// What get-world-state answers. The phase is the day count modulo the eight the textures cycle
/// through. The rule of the daylight cycle is null, because a client is never told the game rule: the
/// clock's rate is in the packet, but the other kind of bot cannot read it, and one saying "frozen"
/// where the other says it cannot tell is two answers to one world. A dimension with no clock of its
/// own reads zero, as the game's own lookup does.
pub fn world_state(time: Option<u64>, bright: bool, fixed_time: bool, weather: Weather) -> (r: Answer)
    ensures
        r@ == AnswerView::full(
            "get-world-state"@,
            ({
                let time = match time {
                    Some(time) => time as int,
                    None => 0,
                };
                Doc::object().with("timeOfDay"@, Doc::number(time % 24_000)).with(
                    "day"@,
                    Doc::number(time / 24_000),
                ).with("moonPhase"@, Doc::number((time / 24_000) % 8)).with(
                    "isDay"@,
                    Doc::Bool(!fixed_time && bright),
                ).with("weather"@, Doc::Text(weather_word(weather))).with(
                    "doDaylightCycle"@,
                    Doc::Null,
                )
            }),
        ),
{
    let time: u64 = match time {
        Some(time) => time,
        None => 0,
    };
    let word: &str = match weather {
        Weather::Thunder => "thunder",
        Weather::Rain => "rain",
        Weather::Clear => "clear",
    };
    Answer::data(
        "get-world-state".to_owned(),
        Json::object().with("timeOfDay", Json::count(time % DAY)).with(
            "day",
            Json::count(time / DAY),
        ).with("moonPhase", Json::count((time / DAY) % 8)).with(
            "isDay",
            Json::Bool(!fixed_time && bright),
        ).with("weather", Json::text(word)).with("doDaylightCycle", Json::Null),
    )
}

/// Each weather goes by its word.
pub proof fn the_weather_goes_by_its_word()
    ensures
        weather_word(Weather::Thunder) == "thunder"@,
        weather_word(Weather::Rain) == "rain"@,
        weather_word(Weather::Clear) == "clear"@,
        DAY == 24000,
{
}

} // verus!
