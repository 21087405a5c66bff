//! The state of the player the bot is.
use vstd::prelude::*;

use crate::calls::{Answer, AnswerView};
use crate::hud::Hud;
use crate::json::{a_field_reads_back, an_empty_object_has_nothing, Doc, Json, Number};
use crate::place::BlockPos;
use crate::tools::args::{plain, point, point_of};
use crate::words::bare;

verus! {

/// A full breath. Below it the bot is spending air, and only then is it worth saying how much.
pub const FULL_AIR: i32 = 300;

#[derive(Clone, Copy, Debug, PartialEq, Eq, Structural)]
pub enum GameMode {
    Survival,
    Creative,
    Adventure,
    Spectator,
}

pub open spec fn mode_name(mode: Option<GameMode>) -> Seq<char> {
    match mode {
        Some(GameMode::Survival) => "survival"@,
        Some(GameMode::Creative) => "creative"@,
        Some(GameMode::Adventure) => "adventure"@,
        Some(GameMode::Spectator) => "spectator"@,
        None => ""@,
    }
}

/// The game's own lower-case name for a mode, which is what the other kind of bot sends.
pub fn game_mode(mode: Option<GameMode>) -> (r: &'static str)
    ensures
        r@ == mode_name(mode),
{
    match mode {
        Some(GameMode::Survival) => "survival",
        Some(GameMode::Creative) => "creative",
        Some(GameMode::Adventure) => "adventure",
        Some(GameMode::Spectator) => "spectator",
        None => "",
    }
}

/// The stack the bot rides: what it sits on, and what is at the bottom.
#[derive(Clone, Copy, Debug, PartialEq, Eq, Structural)]
pub struct Ridden {
    pub seat: i32,
    pub root: i32,
}

/// How far down a stack is followed, because a stack the server described inconsistently must not
/// hang the call.
pub const DEEPEST: usize = 16;

/// Whether each of some entities is loaded and rides the next.
pub open spec fn stacked<F: Fn(i32) -> Option<&'static str>>(
    hud: Hud,
    kind: F,
    passenger: i32,
    chain: Seq<i32>,
) -> bool {
    forall|i: int|
        0 <= i < chain.len() ==> hud.rides_on(
            if i == 0 {
                passenger
            } else {
                chain[i - 1]
            },
            Some(#[trigger] chain[i]),
        ) && exists|name: Option<&'static str>| #[trigger]
            call_ensures(kind, (chain[i],), name) && name is Some
}

/// Whether an entity rides nothing that is loaded, as far as the server said.
pub open spec fn bottom<F: Fn(i32) -> Option<&'static str>>(hud: Hud, kind: F, entity: i32) -> bool {
    hud.rides_on(entity, None) || exists|below: i32| #[trigger]
        hud.rides_on(entity, Some(below)) && call_ensures(kind, (below,), None)
}

/// The vehicle an entity rides, where it is loaded.
fn loaded_vehicle<F: Fn(i32) -> Option<&'static str>>(hud: &Hud, kind: &F, entity: i32) -> (r: Option<
    i32,
>)
    requires
        forall|id: i32| call_requires(*kind, (id,)),
    ensures
        match r {
            Some(below) => hud.rides_on(entity, Some(below)) && exists|name: Option<&'static str>|
                #[trigger] call_ensures(*kind, (below,), name) && name is Some,
            None => bottom(*hud, *kind, entity),
        },
{
    match hud.vehicle_of(entity) {
        Some(below) => {
            let name = kind(below);
            match name {
                Some(_) => {
                    proof {
                        assert(call_ensures(*kind, (below,), name) && name is Some);
                    }
                    Some(below)
                },
                None => {
                    proof {
                        assert(hud.rides_on(entity, Some(below)));
                    }
                    None
                },
            }
        },
        None => None,
    }
}

/// The bottom of the stack the bot rides, and the entity it actually sits on. A plugin seats a player
/// on an invisible entity riding the mount, and either one alone describes half of it. `kind` gives
/// what an entity is, by its network id, where it is loaded.
pub fn ridden<F: Fn(i32) -> Option<&'static str>>(hud: &Hud, kind: &F, me: i32) -> (r: Option<Ridden>)
    requires
        forall|id: i32| call_requires(*kind, (id,)),
    ensures
        match r {
            None => bottom(*hud, *kind, me),
            Some(ridden) => exists|chain: Seq<i32>|
                {
                    &&& 1 <= chain.len() <= DEEPEST + 1
                    &&& #[trigger] stacked(*hud, *kind, me, chain)
                    &&& ridden.seat == chain[0]
                    &&& ridden.root == chain.last()
                    &&& chain.len() == DEEPEST + 1 || bottom(*hud, *kind, ridden.root)
                },
        },
{
    let seat: i32 = match loaded_vehicle(hud, kind, me) {
        Some(seat) => seat,
        None => {
            return None;
        },
    };
    let mut root: i32 = seat;
    let ghost mut chain: Seq<i32> = seq![seat];
    let mut depth: usize = 0;
    while depth < DEEPEST
        invariant
            depth <= DEEPEST,
            forall|id: i32| call_requires(*kind, (id,)),
            chain.len() == depth + 1,
            chain[0] == seat,
            chain.last() == root,
            stacked(*hud, *kind, me, chain),
        decreases DEEPEST - depth,
    {
        match loaded_vehicle(hud, kind, root) {
            Some(below) => {
                proof {
                    let next = chain.push(below);
                    assert forall|i: int| 0 <= i < next.len() implies hud.rides_on(
                        if i == 0 {
                            me
                        } else {
                            next[i - 1]
                        },
                        Some(#[trigger] next[i]),
                    ) && exists|name: Option<&'static str>| #[trigger]
                        call_ensures(*kind, (next[i],), name) && name is Some by {
                        if i < chain.len() {
                            assert(next[i] == chain[i]);
                        } else {
                            assert(next[i - 1] == root);
                        }
                    }
                    chain = next;
                }
                root = below;
            },
            None => {
                return Some(Ridden { seat, root });
            },
        }
        depth += 1;
    }
    Some(Ridden { seat, root })
}

/// An entity of the stack, by what it is and its network id.
pub open spec fn mount_doc(kind: Seq<char>, id: i32) -> Doc {
    Doc::object().with("type"@, Doc::Text(bare(kind))).with("id"@, Doc::number(id as int))
}

fn mount(kind: &str, id: i32) -> (r: Json)
    ensures
        r@ == mount_doc(kind@, id),
{
    Json::object().with("type", Json::text(plain(kind))).with("id", Json::number(id as i64))
}

/// The stack the bot rides as it is answered. `root` and `seat` are what the two are.
pub fn vehicle(ridden: Option<Ridden>, root: &str, seat: &str) -> (r: Json)
    ensures
        r@ == match ridden {
            None => Doc::Null,
            Some(ridden) => mount_doc(root@, ridden.root).with(
                "seat"@,
                if ridden.seat == ridden.root {
                    Doc::Null
                } else {
                    mount_doc(seat@, ridden.seat)
                },
            ),
        },
{
    match ridden {
        None => Json::Null,
        Some(ridden) => {
            let below = if ridden.seat == ridden.root {
                Json::Null
            } else {
                mount(seat, ridden.seat)
            };
            mount(root, ridden.root).with("seat", below)
        },
    }
}

/// What the client knows of the player.
pub struct State {
    pub health: Number,
    pub food: u32,
    pub saturation: Number,
    pub level: u32,
    pub progress: Number,
    pub points: u32,
    pub mode: Option<GameMode>,
    pub dimension: String,
    pub at: BlockPos,
    pub air: Option<i32>,
    pub dead: bool,
    pub cause_of_death: Option<String>,
}

/// What get-player-state answers.
pub fn player_state(state: State, vehicle: Json) -> (r: Answer)
    ensures
        r@ == AnswerView::full(
            "player state"@,
            Doc::object().with("health"@, Doc::Number(state.health)).with(
                "food"@,
                Doc::number(state.food as int),
            ).with("saturation"@, Doc::Number(state.saturation)).with(
                "experience"@,
                Doc::object().with("level"@, Doc::number(state.level as int)).with(
                    "progress"@,
                    Doc::Number(state.progress),
                ).with("points"@, Doc::number(state.points as int)),
            ).with("gameMode"@, Doc::Text(mode_name(state.mode))).with(
                "dimension"@,
                Doc::Text(state.dimension@),
            ).with("position"@, point_of(state.at)).with(
                "oxygen"@,
                match state.air {
                    Some(air) => if air < FULL_AIR {
                        Doc::number(air as int)
                    } else {
                        Doc::Null
                    },
                    None => Doc::Null,
                },
            ).with("dead"@, Doc::Bool(state.dead)).with(
                "causeOfDeath"@,
                match state.cause_of_death {
                    Some(cause) => Doc::Text(cause@),
                    None => Doc::Null,
                },
            ).with("causeOfDeathComponent"@, Doc::Null).with("vehicle"@, vehicle@),
        ),
{
    let oxygen = match state.air {
        Some(air) => if air < FULL_AIR {
            Json::number(air as i64)
        } else {
            Json::Null
        },
        None => Json::Null,
    };
    let cause = match state.cause_of_death {
        Some(cause) => Json::Text(cause),
        None => Json::Null,
    };
    Answer::data(
        "player state".to_owned(),
        Json::object().with("health", Json::Number(state.health)).with(
            "food",
            Json::count(state.food as u64),
        ).with("saturation", Json::Number(state.saturation)).with(
            "experience",
            Json::object().with("level", Json::count(state.level as u64)).with(
                "progress",
                Json::Number(state.progress),
            ).with("points", Json::count(state.points as u64)),
        ).with("gameMode", Json::text(game_mode(state.mode))).with(
            "dimension",
            Json::Text(state.dimension),
        ).with("position", point(state.at)).with("oxygen", oxygen).with(
            "dead",
            Json::Bool(state.dead),
        ).with("causeOfDeath", cause).with("causeOfDeathComponent", Json::Null).with(
            "vehicle",
            vehicle,
        ),
    )
}

/// Each mode goes by its own lower-case name, and what the bot rides by its kind and its id.
pub proof fn a_mode_goes_by_its_name(kind: Seq<char>, id: i32)
    ensures
        mode_name(Some(GameMode::Survival)) == "survival"@,
        mode_name(Some(GameMode::Creative)) == "creative"@,
        mode_name(Some(GameMode::Adventure)) == "adventure"@,
        mode_name(Some(GameMode::Spectator)) == "spectator"@,
        mode_name(None) == ""@,
        mount_doc(kind, id).text_at("type"@) == Some(bare(kind)),
        mount_doc(kind, id).at("id"@) == Some(Doc::number(id as int)),
{
    broadcast use {a_field_reads_back, an_empty_object_has_nothing};
    reveal_strlit("type");
    reveal_strlit("id");
    assert("type"@.len() == 4);
    assert("id"@.len() == 2);
}

} // verus!
