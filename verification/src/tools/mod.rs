//! The tools: what each makes of its arguments, what it decides, and what it answers.
pub mod approach;
pub mod args;
pub mod blocks;
pub mod body;
pub mod book;
pub mod chat;
pub mod command;
pub mod dialogs;
pub mod editors;
pub mod entities;
pub mod hands;
pub mod hud;
pub mod input;
pub mod inventory;
pub mod options;
pub mod player;
pub mod position;
pub mod recipes;
pub mod region;
pub mod sequence;
pub mod serving;
pub mod stacks;
pub mod text;
pub mod trades;
pub mod wait;
pub mod walk;
pub mod windows;
pub mod world;
pub mod worldedit;

use vstd::prelude::*;

use crate::calls::{Failure, FailureView};
use crate::json::{a_field_reads_back, an_empty_object_has_nothing, docs, Doc, Json};
use crate::words::{cat3, literals, same};

verus! {

/// The tools there are, by name.
pub open spec fn tools() -> Seq<Seq<char>> {
    seq![
        "get-position"@,
        "get-player-state"@,
        "get-block-info"@,
        "find-blocks"@,
        "send-chat"@,
        "run-command"@,
        "complete-command"@,
        "switch-server"@,
        "read-scoreboard"@,
        "read-boss-bars"@,
        "read-player-list"@,
        "get-world-state"@,
        "wait-ticks"@,
        "click-chat"@,
        "read-trades"@,
        "select-trade"@,
        "read-container-options"@,
        "press-container-button"@,
        "set-beacon-effects"@,
        "read-book"@,
        "can-craft"@,
        "get-recipe"@,
        "list-recipes"@,
        "craft-item"@,
        "find-entity"@,
        "attack-entity"@,
        "interact-entity"@,
        "list-inventory"@,
        "find-item"@,
        "equip-item"@,
        "give-item"@,
        "open-container"@,
        "read-window"@,
        "close-window"@,
        "wait-for-window"@,
        "click-slot"@,
        "drag-slots"@,
        "drop-held-item"@,
        "look-at"@,
        "jump"@,
        "set-stance"@,
        "move-in-direction"@,
        "respawn"@,
        "move-to-position"@,
        "dig-block"@,
        "place-block"@,
        "activate-block"@,
        "use-held-item"@,
        "press-input"@,
        "press-dialog-button"@,
        "set-dialog-input"@,
        "type-text"@,
        "read-block-entity"@,
    ]
}

pub fn names() -> (r: [&'static str; 53])
    ensures
        literals(r@) == tools(),
{
    let r = [
        "get-position",
        "get-player-state",
        "get-block-info",
        "find-blocks",
        "send-chat",
        "run-command",
        "complete-command",
        "switch-server",
        "read-scoreboard",
        "read-boss-bars",
        "read-player-list",
        "get-world-state",
        "wait-ticks",
        "click-chat",
        "read-trades",
        "select-trade",
        "read-container-options",
        "press-container-button",
        "set-beacon-effects",
        "read-book",
        "can-craft",
        "get-recipe",
        "list-recipes",
        "craft-item",
        "find-entity",
        "attack-entity",
        "interact-entity",
        "list-inventory",
        "find-item",
        "equip-item",
        "give-item",
        "open-container",
        "read-window",
        "close-window",
        "wait-for-window",
        "click-slot",
        "drag-slots",
        "drop-held-item",
        "look-at",
        "jump",
        "set-stance",
        "move-in-direction",
        "respawn",
        "move-to-position",
        "dig-block",
        "place-block",
        "activate-block",
        "use-held-item",
        "press-input",
        "press-dialog-button",
        "set-dialog-input",
        "type-text",
        "read-block-entity",
    ];
    proof {
        assert(literals(r@) =~= tools());
    }
    r
}

/// The first place from one on of a tool's name.
pub open spec fn tool_at(name: Seq<char>, from: int) -> Option<int>
    decreases tools().len() - from,
{
    if from < 0 || from >= tools().len() {
        None
    } else if tools()[from] == name {
        Some(from)
    } else {
        tool_at(name, from + 1)
    }
}

/// The tool of a name, by its place among them.
pub fn find(name: &str) -> (r: Option<usize>)
    ensures
        match r {
            Some(at) => tool_at(name@, 0) == Some(at as int) && at < 53 && tools()[at as int]
                == name@,
            None => tool_at(name@, 0) is None,
        },
{
    let all = names();
    let mut i: usize = 0;
    while i < 53
        invariant
            i <= 53,
            literals(all@) == tools(),
            tools().len() == 53,
            tool_at(name@, 0) == tool_at(name@, i as int),
        decreases 53 - i,
    {
        proof {
            assert(literals(all@)[i as int] == all@[i as int]@);
        }
        if same(all[i], name) {
            return Some(i);
        }
        i += 1;
    }
    None
}

/// The hash of a tool's arguments, where the catalogue has one, from a place of it on.
pub open spec fn hash_of(hashes: Seq<(String, String)>, name: Seq<char>, from: int) -> Option<Seq<char>>
    decreases hashes.len() - from,
{
    if from < 0 || from >= hashes.len() {
        None
    } else if hashes[from].0@ == name {
        Some(hashes[from].1@)
    } else {
        hash_of(hashes, name, from + 1)
    }
}

fn args_hash<'a>(hashes: &'a Vec<(String, String)>, name: &str) -> (r: Option<&'a str>)
    ensures
        match r {
            Some(hash) => hash_of(hashes@, name@, 0) == Some(hash@),
            None => hash_of(hashes@, name@, 0) is None,
        },
{
    let mut i: usize = 0;
    while i < hashes.len()
        invariant
            i <= hashes@.len(),
            hash_of(hashes@, name@, 0) == hash_of(hashes@, name@, i as int),
        decreases hashes@.len() - i,
    {
        if same(hashes[i].0.as_str(), name) {
            return Some(hashes[i].1.as_str());
        }
        i += 1;
    }
    None
}

/// What is offered of the first `n` tools.
pub open spec fn offered(hashes: Seq<(String, String)>, n: int) -> Seq<Doc>
    decreases n,
{
    if n <= 0 {
        Seq::empty()
    } else {
        match hash_of(hashes, tools()[n - 1], 0) {
            Some(hash) => offered(hashes, n - 1).push(
                Doc::object().with("tool"@, Doc::Text(tools()[n - 1])).with(
                    "argsHash"@,
                    Doc::Text(hash),
                ),
            ),
            None => offered(hashes, n - 1),
        }
    }
}

/// What this bot offers at the handshake: the tools it implements that the catalogue has a hash for. A
/// tool with no hash has nothing to agree with, so it is not offered. `hashes` are those of the
/// catalogue, by tool.
pub fn capabilities(hashes: &Vec<(String, String)>) -> (r: Vec<Json>)
    ensures
        docs(r@) == offered(hashes@, 53),
{
    let all = names();
    let mut out: Vec<Json> = Vec::new();
    let mut i: usize = 0;
    proof {
        assert(docs(out@) =~= Seq::<Doc>::empty());
    }
    while i < 53
        invariant
            i <= 53,
            literals(all@) == tools(),
            docs(out@) == offered(hashes@, i as int),
        decreases 53 - i,
    {
        proof {
            assert(literals(all@)[i as int] == all@[i as int]@);
        }
        if let Some(hash) = args_hash(hashes, all[i]) {
            let ghost before = out@;
            let told = Json::object().with("tool", Json::text(all[i])).with(
                "argsHash",
                Json::text(hash),
            );
            out.push(told);
            proof {
                assert(docs(out@) =~= docs(before).push(told@));
            }
        }
        i += 1;
    }
    out
}

/// Whether there is a world, for a tool that needs one: joined, and spawned into it.
pub fn in_world(spawned: bool) -> (r: Result<(), Failure>)
    ensures
        match r {
            Ok(_) => spawned,
            Err(failure) => !spawned && failure@ == FailureView::outside(),
        },
{
    if spawned {
        Ok(())
    } else {
        Err(Failure::not_in_game())
    }
}

/// What is said when the bot is dead, with what killed it where that is known.
pub open spec fn dead_of(cause: Option<Seq<char>>) -> FailureView {
    FailureView::refusal(
        "DEAD"@,
        match cause {
            Some(cause) => "the bot is dead: "@ + cause + ". Use respawn first."@,
            None => "the bot is dead. Use respawn first."@,
        },
    )
}

/// Whether there is a world to act in: joined, spawned into it, and alive. A dead player is still a
/// player to the client, and a tool that went on acting for one sent the server nothing and waited
/// out its deadline.
pub fn alive(spawned: bool, dead: bool, cause: Option<String>) -> (r: Result<(), Failure>)
    ensures
        match r {
            Ok(_) => spawned && !dead,
            Err(failure) => if spawned {
                dead && failure@ == dead_of(
                    match cause {
                        Some(cause) => Some(cause@),
                        None => None,
                    },
                )
            } else {
                failure@ == FailureView::outside()
            },
        },
{
    match in_world(spawned) {
        Err(failure) => Err(failure),
        Ok(_) => if dead {
            let message = match cause {
                Some(cause) => cat3("the bot is dead: ", cause.as_str(), ". Use respawn first."),
                None => "the bot is dead. Use respawn first.".to_owned(),
            };
            Err(Failure::refused("DEAD", message))
        } else {
            Ok(())
        },
    }
}

/// A tool is found where it is in the list, under its own name.
pub proof fn a_tool_is_found_by_its_name(name: Seq<char>, from: int)
    requires
        0 <= from,
    ensures
        match tool_at(name, from) {
            Some(i) => from <= i < tools().len() && tools()[i] == name,
            None => forall|i: int| from <= i < tools().len() ==> #[trigger] tools()[i] != name,
        },
        tools().len() == 53,
    decreases tools().len() - from,
{
    if from < tools().len() {
        a_tool_is_found_by_its_name(name, from + 1);
    }
}

/// A tool is offered with the catalogue's own hash for it, and not at all without one.
pub proof fn a_tool_is_offered_with_its_hash(hashes: Seq<(String, String)>, n: int)
    requires
        0 <= n < 53,
    ensures
        hash_of(hashes, tools()[n], 0) is None ==> offered(hashes, n + 1) == offered(hashes, n),
        hash_of(hashes, tools()[n], 0) matches Some(hash) ==> {
            let told = offered(hashes, n + 1);
            &&& told.len() == offered(hashes, n).len() + 1
            &&& told.last().text_at("tool"@) == Some(tools()[n])
            &&& told.last().text_at("argsHash"@) == Some(hash)
        },
{
    broadcast use {a_field_reads_back, an_empty_object_has_nothing};
    reveal_strlit("tool");
    reveal_strlit("argsHash");
    assert("tool"@.len() == 4);
    assert("argsHash"@.len() == 8);
}

/// A hash is the one the catalogue has under that name.
pub proof fn a_hash_belongs_to_its_tool(hashes: Seq<(String, String)>, name: Seq<char>, from: int)
    requires
        0 <= from,
    ensures
        hash_of(hashes, name, from) matches Some(hash) ==> exists|i: int|
            from <= i < hashes.len() && (#[trigger] hashes[i]).0@ == name && hashes[i].1@ == hash,
        hash_of(hashes, name, from) is None ==> forall|i: int|
            from <= i < hashes.len() ==> (#[trigger] hashes[i]).0@ != name,
    decreases hashes.len() - from,
{
    if from < hashes.len() {
        a_hash_belongs_to_its_tool(hashes, name, from + 1);
    }
}

/// A dead bot says what it died of where that is known.
pub proof fn a_dead_bot_says_why(cause: Seq<char>)
    ensures
        dead_of(None).code == "DEAD"@ && dead_of(Some(cause)).code == "DEAD"@,
        dead_of(Some(cause)).message == "the bot is dead: "@ + cause + ". Use respawn first."@,
        dead_of(None).message == "the bot is dead. Use respawn first."@,
{
}

} // verus!
