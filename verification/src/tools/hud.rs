//! What is drawn over the game: the scoreboard, the boss bars and the player list.
use vstd::prelude::*;

use crate::calls::{Answer, AnswerView};
use crate::hud::{ints, BossBarColor, BossBarOverlay, Hud, Line, Objective, Slot};
use crate::json::{a_field_reads_back, an_empty_object_has_nothing, docs, Doc, Json, Number};
use crate::order::{order_by_text, text_order_of};
use crate::text::{segments, segments_of, Leaf};
use crate::tools::player::{game_mode, mode_name, GameMode};
use crate::words::{before, same, texts};

verus! {

/// The display slot that is asked for, by its name.
pub open spec fn slot_asked(args: Doc) -> Seq<char> {
    match args.text_at("slot"@) {
        Some(slot) => slot,
        None => "sidebar"@,
    }
}

pub open spec fn slot_of(wanted: Seq<char>) -> Slot {
    if wanted == "list"@ {
        Slot::List
    } else if wanted == "belowName"@ {
        Slot::BelowName
    } else {
        Slot::Sidebar
    }
}

/// The display slot that is asked for, by its name and as it is.
pub fn slot(args: &Json) -> (r: (&str, Slot))
    ensures
        r.0@ == slot_asked(args@),
        r.1 == slot_of(slot_asked(args@)),
{
    let wanted: &str = match args.text_at("slot") {
        Some(slot) => slot,
        None => "sidebar",
    };
    let slot = if same(wanted, "list") {
        Slot::List
    } else if same(wanted, "belowName") {
        Slot::BelowName
    } else {
        Slot::Sidebar
    };
    (wanted, slot)
}

pub open spec fn line_docs(lines: Seq<Line>) -> Seq<Doc> {
    Seq::new(
        lines.len(),
        |i: int|
            Doc::object().with("name"@, Doc::Text(lines[i].name@.words())).with(
                "nameComponent"@,
                lines[i].name@,
            ).with("score"@, Doc::number(lines[i].score as int)),
    )
}

/// What read-scoreboard answers: what a server is drawing in a display slot, usually the sidebar.
/// Nothing displayed is a state, not a failure, so the server says the words.
pub fn scoreboard(wanted: &str, board: Option<(&Objective, Vec<Line>)>) -> (r: Answer)
    ensures
        r@ == AnswerView::full(
            "read-scoreboard"@,
            Doc::object().with("slot"@, Doc::Text(wanted@)).with(
                "board"@,
                match board {
                    Some((objective, lines)) => Doc::object().with(
                        "title"@,
                        Doc::Text(objective.title@.words()),
                    ).with("titleComponent"@, objective.title@).with(
                        "entries"@,
                        Doc::list(line_docs(lines@)),
                    ),
                    None => Doc::Null,
                },
            ),
        ),
{
    let drawn = match board {
        None => Json::Null,
        Some((objective, lines)) => {
            let mut entries: Vec<Json> = Vec::new();
            let mut i: usize = 0;
            while i < lines.len()
                invariant
                    i <= lines@.len(),
                    entries@.len() == i,
                    forall|k: int| 0 <= k < i ==> (#[trigger] entries@[k])@ == line_docs(lines@)[k],
                decreases lines@.len() - i,
            {
                entries.push(
                    Json::object().with("name", Json::Text(lines[i].name.words())).with(
                        "nameComponent",
                        lines[i].name.copy(),
                    ).with("score", Json::number(lines[i].score as i64)),
                );
                i += 1;
            }
            proof {
                assert(docs(entries@) =~= line_docs(lines@));
            }
            Json::object().with("title", Json::Text(objective.title.words())).with(
                "titleComponent",
                objective.title.copy(),
            ).with("entries", Json::list(entries))
        },
    };
    Answer::data(
        "read-scoreboard".to_owned(),
        Json::object().with("slot", Json::text(wanted)).with("board", drawn),
    )
}

pub open spec fn colour_name(colour: BossBarColor) -> Seq<char> {
    match colour {
        BossBarColor::Pink => "pink"@,
        BossBarColor::Blue => "blue"@,
        BossBarColor::Red => "red"@,
        BossBarColor::Green => "green"@,
        BossBarColor::Yellow => "yellow"@,
        BossBarColor::Purple => "purple"@,
        BossBarColor::White => "white"@,
    }
}

pub fn color(colour: BossBarColor) -> (r: &'static str)
    ensures
        r@ == colour_name(colour),
{
    match colour {
        BossBarColor::Pink => "pink",
        BossBarColor::Blue => "blue",
        BossBarColor::Red => "red",
        BossBarColor::Green => "green",
        BossBarColor::Yellow => "yellow",
        BossBarColor::Purple => "purple",
        BossBarColor::White => "white",
    }
}

pub open spec fn notches(overlay: BossBarOverlay) -> int {
    match overlay {
        BossBarOverlay::Progress => 0,
        BossBarOverlay::Notched6 => 6,
        BossBarOverlay::Notched10 => 10,
        BossBarOverlay::Notched12 => 12,
        BossBarOverlay::Notched20 => 20,
    }
}

/// The notch count a style draws, which is what a reader counts. Zero for a plain bar.
pub fn dividers(overlay: BossBarOverlay) -> (r: u32)
    ensures
        r == notches(overlay),
{
    match overlay {
        BossBarOverlay::Progress => 0,
        BossBarOverlay::Notched6 => 6,
        BossBarOverlay::Notched10 => 10,
        BossBarOverlay::Notched12 => 12,
        BossBarOverlay::Notched20 => 20,
    }
}

/// A bar as it is drawn: its name with the leaves that name has, and how full it is.
pub struct Shown {
    pub name: Json,
    pub leaves: Vec<Leaf>,
    pub progress: Number,
    pub color: BossBarColor,
    pub overlay: BossBarOverlay,
}

pub open spec fn bar_docs(bars: Seq<Shown>) -> Seq<Doc> {
    Seq::new(
        bars.len(),
        |i: int|
            Doc::object().with("title"@, Doc::Text(bars[i].name@.words())).with(
                "progress"@,
                Doc::Number(bars[i].progress),
            ).with("color"@, Doc::Text(colour_name(bars[i].color))).with(
                "dividers"@,
                Doc::number(notches(bars[i].overlay)),
            ).with("segments"@, Doc::list(segments_of(bars[i].leaves@))).with(
                "component"@,
                bars[i].name@,
            ),
    )
}

/// What read-boss-bars answers: the bars the server has put on the HUD, which servers use as a
/// progress display. Stacked labels, the same as an action bar: joined into one string they run
/// together.
pub fn boss_bars(bars: &Vec<Shown>) -> (r: Answer)
    ensures
        r@ == AnswerView::full(
            "read-boss-bars"@,
            Doc::object().with("bars"@, Doc::list(bar_docs(bars@))),
        ),
{
    let mut out: Vec<Json> = Vec::new();
    let mut i: usize = 0;
    while i < bars.len()
        invariant
            i <= bars@.len(),
            out@.len() == i,
            forall|k: int| 0 <= k < i ==> (#[trigger] out@[k])@ == bar_docs(bars@)[k],
        decreases bars@.len() - i,
    {
        let bar = &bars[i];
        out.push(
            Json::object().with("title", Json::Text(bar.name.words())).with(
                "progress",
                Json::Number(bar.progress),
            ).with("color", Json::text(color(bar.color))).with(
                "dividers",
                Json::count(dividers(bar.overlay) as u64),
            ).with("segments", segments(&bar.leaves)).with("component", bar.name.copy()),
        );
        i += 1;
    }
    proof {
        assert(docs(out@) =~= bar_docs(bars@));
    }
    Answer::data("read-boss-bars".to_owned(), Json::object().with("bars", Json::list(out)))
}

/// A player as the tab list has them.
pub struct Online {
    pub uuid: u128,
    pub name: String,
    pub mode: GameMode,
    pub ping: i32,
    /// What the tab list draws in place of the name: where a server puts a rank, in the pack's own
    /// font as often as not.
    pub drawn: Option<Json>,
}

/// The places among the first `n` players of those the list shows.
pub open spec fn shown_of(hud: Hud, players: Seq<Online>, n: int) -> Seq<int>
    decreases n,
{
    if n <= 0 {
        Seq::empty()
    } else if hud.listed@.dom().contains(players[n - 1].uuid) {
        shown_of(hud, players, n - 1).push(n - 1)
    } else {
        shown_of(hud, players, n - 1)
    }
}

pub open spec fn names_at(players: Seq<Online>, places: Seq<int>) -> Seq<Seq<char>> {
    Seq::new(places.len(), |i: int| players[places[i]].name@)
}

pub open spec fn player_doc(player: Online, me: Seq<char>) -> Doc {
    Doc::object().with("name"@, Doc::Text(player.name@)).with(
        "gameMode"@,
        Doc::Text(mode_name(Some(player.mode))),
    ).with("ping"@, Doc::number(player.ping as int)).with(
        "self"@,
        Doc::Bool(player.name@ == me),
    ).with(
        "displayName"@,
        match player.drawn {
            Some(drawn) => Doc::Text(drawn@.words()),
            None => Doc::Null,
        },
    ).with(
        "displayNameComponent"@,
        match player.drawn {
            Some(drawn) => drawn@,
            None => Doc::Null,
        },
    )
}

/// The players the list shows, by name.
pub open spec fn player_docs(hud: Hud, players: Seq<Online>, me: Seq<char>) -> Seq<Doc> {
    let places = shown_of(hud, players, players.len() as int);
    let order = text_order_of(names_at(players, places));
    Seq::new(places.len(), |i: int| player_doc(players[places[order[i]]], me))
}

/// What read-player-list answers: who else is online, from the tab list the server keeps up to date.
/// The username is the identity every other tool takes.
pub fn player_list(hud: &Hud, players: &Vec<Online>, me: &str) -> (r: Answer)
    ensures
        r@ == AnswerView::full(
            "read-player-list"@,
            Doc::object().with("players"@, Doc::list(player_docs(*hud, players@, me@))),
        ),
{
    let mut places: Vec<usize> = Vec::new();
    let mut names: Vec<String> = Vec::new();
    let mut i: usize = 0;
    proof {
        assert(ints(places@) =~= Seq::<int>::empty());
    }
    while i < players.len()
        invariant
            i <= players@.len(),
            ints(places@) == shown_of(*hud, players@, i as int),
            names@.len() == places@.len(),
            forall|k: int|
                0 <= k < places@.len() ==> (#[trigger] places@[k]) < i && names@[k]@
                    == players@[places@[k] as int].name@,
        decreases players@.len() - i,
    {
        if hud.listed(players[i].uuid) {
            let ghost before = places@;
            places.push(i);
            names.push(players[i].name.clone());
            proof {
                assert(ints(places@) =~= ints(before).push(i as int));
            }
        }
        i += 1;
    }
    let ghost shown = ints(places@);
    proof {
        assert(texts(names@) =~= names_at(players@, shown));
    }
    let order = order_by_text(&names);
    let ghost wanted = player_docs(*hud, players@, me@);
    proof {
        assert(ints(order@).len() == places@.len());
        assert forall|k: int| 0 <= k < order@.len() implies (#[trigger] order@[k]) < places@.len()
            && wanted[k] == player_doc(
            players@[places@[order@[k] as int] as int],
            me@,
        ) by {
            assert(ints(order@)[k] == order@[k] as int);
            assert(ints(order@).contains(ints(order@)[k]));
            assert(shown[order@[k] as int] == places@[order@[k] as int] as int);
        }
    }
    let mut out: Vec<Json> = Vec::new();
    let mut j: usize = 0;
    while j < order.len()
        invariant
            j <= order@.len() == places@.len() == wanted.len(),
            forall|k: int| 0 <= k < places@.len() ==> (#[trigger] places@[k]) < players@.len(),
            forall|k: int|
                0 <= k < order@.len() ==> (#[trigger] order@[k]) < places@.len() && wanted[k]
                    == player_doc(players@[places@[order@[k] as int] as int], me@),
            out@.len() == j,
            forall|k: int| 0 <= k < j ==> (#[trigger] out@[k])@ == wanted[k],
        decreases order@.len() - j,
    {
        let player = &players[places[order[j]]];
        let (drawn, component) = match &player.drawn {
            Some(drawn) => (Json::Text(drawn.words()), drawn.copy()),
            None => (Json::Null, Json::Null),
        };
        out.push(
            Json::object().with("name", Json::Text(player.name.clone())).with(
                "gameMode",
                Json::text(game_mode(Some(player.mode))),
            ).with("ping", Json::number(player.ping as i64)).with(
                "self",
                Json::Bool(same(player.name.as_str(), me)),
            ).with("displayName", drawn).with("displayNameComponent", component),
        );
        j += 1;
    }
    proof {
        assert(docs(out@) =~= wanted);
    }
    Answer::data(
        "read-player-list".to_owned(),
        Json::object().with("players", Json::list(out)),
    )
}

/// A slot is asked for by its name, and is the sidebar where none is.
pub proof fn a_slot_goes_by_its_name(args: Doc)
    ensures
        args.text_at("slot"@) is None ==> slot_of(slot_asked(args)) == Slot::Sidebar,
        args.text_at("slot"@) matches Some(slot) ==> slot_asked(args) == slot,
        slot_of("list"@) == Slot::List,
        slot_of("belowName"@) == Slot::BelowName,
        slot_of("sidebar"@) == Slot::Sidebar,
{
    reveal_strlit("list");
    reveal_strlit("belowName");
    reveal_strlit("sidebar");
    assert("list"@.len() == 4);
    assert("belowName"@.len() == 9);
    assert("sidebar"@.len() == 7);
}

/// A line of a board is told by its name, in words and as it is drawn, and by its score.
pub proof fn a_line_is_told_with_its_score(lines: Seq<Line>, i: int)
    requires
        0 <= i < lines.len(),
    ensures
        line_docs(lines).len() == lines.len(),
        line_docs(lines)[i].text_at("name"@) == Some(lines[i].name@.words()),
        line_docs(lines)[i].at("nameComponent"@) == Some(lines[i].name@),
        line_docs(lines)[i].at("score"@) == Some(Doc::number(lines[i].score as int)),
{
    broadcast use {a_field_reads_back, an_empty_object_has_nothing};
    reveal_strlit("name");
    reveal_strlit("nameComponent");
    reveal_strlit("score");
    assert("name"@.len() == 4);
    assert("nameComponent"@.len() == 13);
    assert("score"@.len() == 5);
}

/// A boss bar is told by its title, how far it has come, its colour and its notches.
pub proof fn a_bar_is_told_as_it_is_drawn(bars: Seq<Shown>, i: int)
    requires
        0 <= i < bars.len(),
    ensures
        bar_docs(bars).len() == bars.len(),
        bar_docs(bars)[i].text_at("title"@) == Some(bars[i].name@.words()),
        bar_docs(bars)[i].at("component"@) == Some(bars[i].name@),
        bar_docs(bars)[i].at("progress"@) == Some(Doc::Number(bars[i].progress)),
        bar_docs(bars)[i].text_at("color"@) == Some(colour_name(bars[i].color)),
        bar_docs(bars)[i].at("dividers"@) == Some(Doc::number(notches(bars[i].overlay))),
        bar_docs(bars)[i].items_at("segments"@) == Some(segments_of(bars[i].leaves@)),
{
    broadcast use {a_field_reads_back, an_empty_object_has_nothing};
    reveal_strlit("title");
    reveal_strlit("progress");
    reveal_strlit("color");
    reveal_strlit("dividers");
    reveal_strlit("segments");
    reveal_strlit("component");
    assert("title"@.len() == 5);
    assert("progress"@.len() == 8);
    assert("color"@.len() == 5);
    assert("dividers"@.len() == 8);
    assert("segments"@.len() == 8);
    assert("component"@.len() == 9);
    assert("title"@[0] != "color"@[0]);
    assert("progress"@[0] != "dividers"@[0]);
    assert("progress"@[0] != "segments"@[0]);
    assert("dividers"@[0] != "segments"@[0]);
}

/// Each colour of a bar goes by its name, and each style has as many notches as it says.
pub proof fn a_bars_colour_and_notches(colour: BossBarColor, overlay: BossBarOverlay)
    ensures
        colour == BossBarColor::Pink ==> colour_name(colour) == "pink"@,
        colour == BossBarColor::Blue ==> colour_name(colour) == "blue"@,
        colour == BossBarColor::Red ==> colour_name(colour) == "red"@,
        colour == BossBarColor::Green ==> colour_name(colour) == "green"@,
        colour == BossBarColor::Yellow ==> colour_name(colour) == "yellow"@,
        colour == BossBarColor::Purple ==> colour_name(colour) == "purple"@,
        colour == BossBarColor::White ==> colour_name(colour) == "white"@,
        overlay == BossBarOverlay::Progress ==> notches(overlay) == 0,
        overlay == BossBarOverlay::Notched6 ==> notches(overlay) == 6,
        overlay == BossBarOverlay::Notched10 ==> notches(overlay) == 10,
        overlay == BossBarOverlay::Notched12 ==> notches(overlay) == 12,
        overlay == BossBarOverlay::Notched20 ==> notches(overlay) == 20,
{
}

/// The players that are told are those the tab list shows.
pub proof fn the_list_tells_who_is_listed(hud: Hud, players: Seq<Online>, n: int, at: int)
    requires
        0 <= n <= players.len(),
    ensures
        shown_of(hud, players, n).contains(at) <==> 0 <= at < n && hud.listed@.dom().contains(
            players[at].uuid,
        ),
    decreases n,
{
    if n > 0 {
        let before = shown_of(hud, players, n - 1);
        let all = shown_of(hud, players, n);
        the_list_tells_who_is_listed(hud, players, n - 1, at);
        if all.contains(at) {
            let i = all.index_of(at);
            if i < before.len() {
                assert(before[i] == at);
            }
        }
        if before.contains(at) {
            let i = before.index_of(at);
            assert(all[i] == at);
        }
        if all.len() > before.len() {
            assert(all[before.len() as int] == n - 1);
        }
    }
}

/// A player is told by name, mode and ping, and as the bot's own where it is.
pub proof fn a_player_is_told_as_it_is_listed(player: Online, me: Seq<char>)
    ensures
        ({
            let told = player_doc(player, me);
            &&& told.text_at("name"@) == Some(player.name@)
            &&& told.text_at("gameMode"@) == Some(mode_name(Some(player.mode)))
            &&& told.at("ping"@) == Some(Doc::number(player.ping as int))
            &&& told.bool_at("self"@) == Some(player.name@ == me)
            &&& player.drawn matches Some(drawn) ==> told.text_at("displayName"@) == Some(
                drawn@.words(),
            ) && told.at("displayNameComponent"@) == Some(drawn@)
            &&& player.drawn is None ==> told.at("displayName"@) == Some(Doc::Null)
        }),
{
    broadcast use {a_field_reads_back, an_empty_object_has_nothing};
    reveal_strlit("name");
    reveal_strlit("gameMode");
    reveal_strlit("ping");
    reveal_strlit("self");
    reveal_strlit("displayName");
    reveal_strlit("displayNameComponent");
    assert("name"@.len() == 4);
    assert("gameMode"@.len() == 8);
    assert("ping"@.len() == 4);
    assert("self"@.len() == 4);
    assert("displayName"@.len() == 11);
    assert("displayNameComponent"@.len() == 20);
    assert("name"@[0] != "ping"@[0]);
    assert("name"@[0] != "self"@[0]);
    assert("ping"@[0] != "self"@[0]);
}

/// The players are told in the order of their names, each that is listed once.
pub proof fn the_players_are_told_in_order(hud: Hud, players: Seq<Online>, me: Seq<char>, order: Seq<int>, i: int)
    requires
        crate::order::in_text_order(
            names_at(players, shown_of(hud, players, players.len() as int)),
            order,
            shown_of(hud, players, players.len() as int).len() as int,
        ),
        0 <= i < shown_of(hud, players, players.len() as int).len(),
    ensures
        ({
            let places = shown_of(hud, players, players.len() as int);
            &&& player_docs(hud, players, me).len() == places.len()
            &&& player_docs(hud, players, me)[i].text_at("name"@) == Some(
                players[places[order[i]]].name@,
            )
            &&& i > 0 ==> !before(players[places[order[i]]].name@, players[places[order[i - 1]]].name@)
        }),
{
    let places = shown_of(hud, players, players.len() as int);
    let names = names_at(players, places);
    crate::order::one_text_order_only(names, order, text_order_of(names));
    a_player_is_told_as_it_is_listed(players[places[order[i]]], me);
    assert(order.contains(order[i]));
    if i > 0 {
        assert(order.contains(order[i - 1]));
        assert(crate::order::reads_before(names, order[i - 1], order[i]));
        crate::words::texts_are_ordered(names[order[i - 1]], names[order[i]]);
    }
}

} // verus!
