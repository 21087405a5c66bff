//! What a vanilla client keeps of its screen: the scoreboard, the boss bars, the clock, the weather,
//! the dialog and the editors.
//!
//! Nothing of them is left to read once a packet was handled, so they are read here as the packets
//! come in: each changes what is kept, and the boards are drawn from what is kept.
use vstd::prelude::*;

use crate::commands::Commands;
use crate::dialog::{inputs_of, starts, Open, Slider};
use crate::editors::{
    face_lines, outside_chunk, sign_face, BlockEntities, BlockEntity, CommandEditor, SignEditor,
};
use crate::feeds::{self, Line as FeedLine};
use crate::json::{Doc, Json};
use crate::place::BlockPos;
use crate::style::{
    colour_name, colour_number, framed, framed_name, styled, styled_text, ChatFormatting, Style,
    StyleView,
};
use crate::table::{kept_only, Table};
use crate::words::{
    before, ends, ends_with, is_before, lowercase, lowercase_of, order_carries_over, same,
    starts_with, texts, texts_are_ordered,
};

verus! {

/// How the scores of an objective are drawn: hidden, as fixed text, or as the number in a style.
pub enum NumberFormat {
    Blank,
    Styled(Style),
    Fixed(Json),
}

pub struct Objective {
    pub title: Json,
    /// How its scores are drawn, when it says.
    pub number_format: Option<NumberFormat>,
}

pub struct Score {
    pub value: i32,
    pub display: Option<Json>,
    /// The entry's own format, which wins over the objective's.
    pub number_format: Option<NumberFormat>,
}

/// What a team does to the names of its members wherever they are drawn.
pub struct Team {
    pub color: ChatFormatting,
    pub prefix: Json,
    pub suffix: Json,
}

/// A line of a board as the client draws it: the name, and the score column beside it.
pub struct Line {
    pub name: Json,
    pub score: i32,
    pub value: Json,
}

pub struct LineView {
    pub name: Doc,
    pub score: i32,
    pub value: Doc,
}

impl View for Line {
    type V = LineView;

    open spec fn view(&self) -> LineView {
        LineView { name: self.name@, score: self.score, value: self.value@ }
    }
}

/// The views of a list of lines.
pub open spec fn line_views(lines: Seq<Line>) -> Seq<LineView> {
    Seq::new(lines.len(), |i: int| lines[i]@)
}

/// The display slots the protocol numbers: the list, the sidebar, below names, and a sidebar per
/// team colour after those.
pub const DISPLAY_SLOTS: usize = 19;

pub const FIRST_TEAM_SLOT: usize = 3;

/// The most lines a sidebar draws.
pub const SIDEBAR_LINES: usize = 15;

#[derive(Clone, Copy, Debug, PartialEq, Eq, Structural)]
pub enum BossBarColor {
    Pink,
    Blue,
    Red,
    Green,
    Yellow,
    Purple,
    White,
}

#[derive(Clone, Copy, Debug, PartialEq, Eq, Structural)]
pub enum BossBarOverlay {
    Progress,
    Notched6,
    Notched10,
    Notched12,
    Notched20,
}

pub struct Bar {
    pub id: u128,
    pub name: Json,
    /// The bits of the single it is.
    pub progress: u32,
    pub color: BossBarColor,
    pub overlay: BossBarOverlay,
}

#[derive(Clone, Copy)]
pub struct Clock {
    pub total_ticks: u64,
    /// The bits of the single it is.
    pub rate: u32,
    pub at_tick: u64,
}

/// The dimension the player is in: its type, for the clock and the sky, and its name.
pub struct Dimension {
    pub kind: u32,
    pub name: String,
}

pub struct Hud {
    pub objectives: Table<String, Objective>,
    /// The objective in each display slot, as the protocol numbers them. The client draws a
    /// team-coloured sidebar in place of the plain one for a player whose team wears that colour.
    pub displayed: Vec<Option<String>>,
    /// By owner and objective.
    pub scores: Table<(String, String), Score>,
    pub teams: Table<String, Team>,
    /// The team each entry is on: a player's name, or an owner the server made up for a line.
    pub members: Table<String, String>,
    /// In the order the server added them, which is the order the client stacks them in.
    pub bars: Vec<Bar>,
    pub clocks: Table<u32, Clock>,
    pub dimension: Option<Dimension>,
    /// The bits of the singles they are.
    pub rain: u32,
    pub thunder: u32,
    /// The players the tab list shows. A server that hides one from the list -- an NPC, a vanished
    /// moderator -- still tells the client of it.
    pub listed: Table<u128, ()>,
    /// The completions that are still to be answered.
    pub completions: Table<u32, ()>,
    pub next_completion: u32,
    /// Who rides what, by network id: a vehicle and its passengers. A vehicle that has since left
    /// the world can still be in here, so a reader checks the vehicle is loaded before believing it.
    pub passengers: Table<i32, Vec<i32>>,
    /// The tick each cooling cooldown group comes free on, counted in the bot's own ticks the way
    /// the client counts them.
    pub cooldowns: Table<String, u64>,
    pub logins: u64,
    /// The end credits are up. The client shows them for any win-game event, whatever its value,
    /// and they hold the player outside every world until it asks to respawn.
    pub credits: bool,
    /// The dialog on screen, with what its inputs hold. Kept even when its definition could not be
    /// read, because keys still go to it and not to the game.
    pub dialog: Option<Open>,
    pub commands: Option<Commands>,
    pub block_entities: BlockEntities,
    /// The sign editor and the command block editor, while one is open.
    pub sign_editor: Option<SignEditor>,
    pub command_editor: Option<CommandEditor>,
    /// The operator level the server last gave the player, from 0 to 4.
    pub permission_level: u8,
    /// The player's own entity id, from the login. The operator level arrives straight after it.
    pub player_id: Option<i32>,
    /// The server takes only signed chat, which it says at login. This bot never has a key to sign
    /// with, so plain chat to such a server is dropped.
    pub signed_chat_only: bool,
}

#[derive(Clone, Copy, Debug, PartialEq, Eq, Structural)]
pub enum Slot {
    List,
    Sidebar,
    BelowName,
}

pub open spec fn slot_number(slot: Slot) -> int {
    match slot {
        Slot::List => 0,
        Slot::Sidebar => 1,
        Slot::BelowName => 2,
    }
}

/// The names in the display slots.
pub open spec fn slot_names(displayed: Seq<Option<String>>) -> Seq<Option<Seq<char>>> {
    Seq::new(
        displayed.len(),
        |i: int|
            match displayed[i] {
                Some(name) => Some(name@),
                None => None,
            },
    )
}

impl Hud {
    /// Every display slot has its place.
    pub open spec fn valid(&self) -> bool {
        self.displayed@.len() == DISPLAY_SLOTS
    }

    /// A screen with nothing on it.
    pub open spec fn is_fresh(&self) -> bool {
        &&& self.valid()
        &&& self.objectives@ == Map::<Seq<char>, Objective>::empty()
        &&& slot_names(self.displayed@) == Seq::new(DISPLAY_SLOTS as nat, |i: int| None::<Seq<char>>)
        &&& self.scores@ == Map::<(Seq<char>, Seq<char>), Score>::empty()
        &&& self.teams@ == Map::<Seq<char>, Team>::empty()
        &&& self.members@ == Map::<Seq<char>, String>::empty()
        &&& self.bars@ == Seq::<Bar>::empty()
        &&& self.clocks@ == Map::<u32, Clock>::empty()
        &&& self.rain == 0
        &&& self.thunder == 0
        &&& self.listed@ == Map::<u128, ()>::empty()
        &&& self.completions@ == Map::<u32, ()>::empty()
        &&& self.next_completion == 0
        &&& self.passengers@ == Map::<i32, Vec<i32>>::empty()
        &&& self.cooldowns@ == Map::<Seq<char>, u64>::empty()
        &&& !self.credits
        &&& self.dialog is None
        &&& self.commands is None
        &&& self.block_entities@ == Map::<BlockPos, BlockEntity>::empty()
        &&& self.sign_editor is None
        &&& self.command_editor is None
        &&& self.permission_level == 0
    }

    pub fn new() -> (r: Hud)
        ensures
            r.is_fresh(),
            r.dimension is None,
            r.logins == 0,
            r.player_id is None,
            !r.signed_chat_only,
    {
        let mut displayed: Vec<Option<String>> = Vec::new();
        let mut i: usize = 0;
        while i < DISPLAY_SLOTS
            invariant
                i <= DISPLAY_SLOTS,
                displayed@.len() == i,
                forall|k: int| 0 <= k < i ==> (#[trigger] displayed@[k]) is None,
            decreases DISPLAY_SLOTS - i,
        {
            displayed.push(None);
            i += 1;
        }
        let r = Hud {
            objectives: Table::new(),
            displayed,
            scores: Table::new(),
            teams: Table::new(),
            members: Table::new(),
            bars: Vec::new(),
            clocks: Table::new(),
            dimension: None,
            rain: 0,
            thunder: 0,
            listed: Table::new(),
            completions: Table::new(),
            next_completion: 0,
            passengers: Table::new(),
            cooldowns: Table::new(),
            logins: 0,
            credits: false,
            dialog: None,
            commands: None,
            block_entities: BlockEntities::new(),
            sign_editor: None,
            command_editor: None,
            permission_level: 0,
            player_id: None,
            signed_chat_only: false,
        };
        proof {
            assert(slot_names(r.displayed@) =~= Seq::new(
                DISPLAY_SLOTS as nat,
                |i: int| None::<Seq<char>>,
            ));
        }
        r
    }

    /// The team a name is on, where it is on one the client knows.
    pub open spec fn team_of_name(&self, member: Seq<char>) -> Option<Team> {
        if self.members@.dom().contains(member) && self.teams@.dom().contains(
            self.members@[member]@,
        ) {
            Some(self.teams@[self.members@[member]@])
        } else {
            None
        }
    }

    fn team_of(&self, member: &str) -> (r: Option<&Team>)
        ensures
            match r {
                Some(team) => self.team_of_name(member@) == Some(*team),
                None => self.team_of_name(member@) is None,
            },
    {
        match self.members.get(&member.to_owned()) {
            Some(team) => self.teams.get(team),
            None => None,
        }
    }

    /// The name of the objective a slot shows the player named `me`: on the sidebar the one of the
    /// slot the player's team colour names where that slot holds one, and else the slot's own.
    pub open spec fn shown_in(&self, slot: Slot, me: Seq<char>) -> Option<Seq<char>> {
        let own = slot_names(self.displayed@)[slot_number(slot)];
        match self.team_of_name(me) {
            Some(team) => match colour_number(team.color) {
                Some(n) => {
                    let by_team = slot_names(self.displayed@)[FIRST_TEAM_SLOT + n];
                    if slot == Slot::Sidebar && by_team is Some {
                        by_team
                    } else {
                        own
                    }
                },
                None => own,
            },
            None => own,
        }
    }

    fn objective_in(&self, slot: Slot, me: &str) -> (r: Option<&String>)
        requires
            self.valid(),
        ensures
            match r {
                Some(name) => self.shown_in(slot, me@) == Some(name@),
                None => self.shown_in(slot, me@) is None,
            },
    {
        if slot == Slot::Sidebar {
            match self.team_of(me) {
                Some(team) => match team_slot(team.color) {
                    Some(by_team) => match &self.displayed[by_team] {
                        Some(name) => {
                            return Some(name);
                        },
                        None => {},
                    },
                    None => {},
                },
                None => {},
            }
        }
        let own: usize = match slot {
            Slot::List => 0,
            Slot::Sidebar => 1,
            Slot::BelowName => 2,
        };
        match &self.displayed[own] {
            Some(name) => Some(name),
            None => None,
        }
    }

    /// A name as a team draws it: between the team's prefix and suffix, in the team's colour unless
    /// that is reset, and as it is off any team.
    pub open spec fn name_in_team(&self, owner: Seq<char>, name: Doc) -> Doc {
        match self.team_of_name(owner) {
            Some(team) => framed_name(
                StyleView::of_team(team.color),
                team.prefix@,
                name,
                team.suffix@,
            ),
            None => name,
        }
    }

    fn team_name(&self, owner: &str, name: Json) -> (r: Json)
        ensures
            r@ == self.name_in_team(owner@, name@),
    {
        match self.team_of(owner) {
            Some(team) => framed(&Style::of_team(team.color), &team.prefix, &name, &team.suffix),
            None => name,
        }
    }

    /// A score as a line of a board.
    pub open spec fn line_of(&self, slot: Slot, objective: Objective, owner: Seq<char>, score: Score) -> LineView {
        let name = match score.display {
            Some(display) => display@,
            None => Doc::Text(owner),
        };
        LineView {
            name: if slot == Slot::Sidebar {
                self.name_in_team(owner, name)
            } else {
                name
            },
            score: score.value,
            value: formatted_of(score, objective, slot_style(slot)),
        }
    }

    fn line(&self, slot: Slot, objective: &Objective, owner: &str, score: &Score, style: &Style) -> (r:
        Line)
        requires
            style@ == slot_style(slot),
        ensures
            r@ == self.line_of(slot, *objective, owner@, *score),
    {
        let name = match &score.display {
            Some(display) => display.copy(),
            None => Json::text(owner),
        };
        let name = if slot == Slot::Sidebar {
            self.team_name(owner, name)
        } else {
            name
        };
        Line { name, score: score.value, value: formatted(score, objective, style) }
    }

    /// The scores of an objective in the order a board draws them, by their places in the list.
    fn ranking(&self, name: &str) -> (order: Vec<usize>)
        ensures
            ranked(self.scores.list(), name@, ints(order@)),
    {
        let ghost list = self.scores.list();
        let n: usize = self.scores.len();
        let mut order: Vec<usize> = Vec::new();
        let mut i: usize = 0;
        while i < n
            invariant
                i <= n == list.len(),
                list == self.scores.list(),
                ranked_among(list, name@, ints(order@), i as int),
                forall|k: int| 0 <= k < order@.len() ==> (#[trigger] order@[k]) < i,
            decreases n - i,
        {
            let (key, score) = self.scores.entry(i);
            if same(key.1.as_str(), name) {
                let mut p: usize = 0;
                while p < order.len() && !self.ranks_over(i, order[p])
                    invariant
                        p <= order@.len(),
                        i < n == list.len(),
                        list == self.scores.list(),
                        forall|k: int| 0 <= k < order@.len() ==> (#[trigger] order@[k]) < i,
                        forall|k: int|
                            0 <= k < p ==> !outranks(list[i as int], list[#[trigger] order@[k] as int]),
                    decreases order@.len() - p,
                {
                    p += 1;
                }
                let ghost old_order = ints(order@);
                order.insert(p, i);
                proof {
                    assert(ints(order@) =~= old_order.insert(p as int, i as int));
                    put_in_rank(list, name@, old_order, i as int, p as int);
                }
            } else {
                proof {
                    passed_over(list, name@, ints(order@), i as int);
                }
            }
            i += 1;
        }
        order
    }

    /// Whether one score comes before another on a board.
    fn ranks_over(&self, a: usize, b: usize) -> (r: bool)
        requires
            a < self.scores.list().len(),
            b < self.scores.list().len(),
        ensures
            r == outranks(self.scores.list()[a as int], self.scores.list()[b as int]),
    {
        let (left, first) = self.scores.entry(a);
        let (right, second) = self.scores.entry(b);
        first.value > second.value || (first.value == second.value && is_before(
            lowercase(left.0.as_str()).as_str(),
            lowercase(right.0.as_str()).as_str(),
        ))
    }

    /// The board in a slot as the client draws it for the player named `me`: the lines in order,
    /// highest score first and then by owner.
    ///
    /// The sidebar is the one the player's team colour names when that slot holds an objective, and
    /// the plain one otherwise; it leaves out the owners starting with '#', stops at fifteen, and
    /// draws each name between its team's prefix and suffix in the team's colour. The list and the
    /// name below a player are drawn elsewhere, without any of that. The score column is whatever
    /// the number format makes of the score: the entry's own, else the objective's, else the slot's
    /// default style on the number.
    pub fn board(&self, slot: Slot, me: &str) -> (r: Option<(&Objective, Vec<Line>)>)
        requires
            self.valid(),
        ensures
            match r {
                Some((objective, lines)) => {
                    &&& self.shown_in(slot, me@) matches Some(name)
                    &&& self.objectives@.dom().contains(name)
                    &&& self.objectives@[name] == *objective
                    &&& exists|order: Seq<int>| #[trigger]
                        ranked(self.scores.list(), name, order) && line_views(lines@) == self.drawn(
                            slot,
                            *objective,
                            order,
                        )
                },
                None => self.shown_in(slot, me@) matches Some(name)
                    ==> !self.objectives@.dom().contains(name),
            },
    {
        let name = match self.objective_in(slot, me) {
            Some(name) => name,
            None => {
                return None;
            },
        };
        let objective = match self.objectives.get(name) {
            Some(objective) => objective,
            None => {
                return None;
            },
        };
        let style = match slot {
            Slot::Sidebar => Style::coloured(ChatFormatting::Red),
            Slot::List => Style::coloured(ChatFormatting::Yellow),
            Slot::BelowName => Style::plain(),
        };
        let order = self.ranking(name.as_str());
        let ghost list = self.scores.list();
        let ghost full = ints(order@);
        let mut lines: Vec<Line> = Vec::new();
        let mut i: usize = 0;
        proof {
            assert(line_views(lines@) =~= self.drawn_part(slot, *objective, full.take(0)));
        }
        while i < order.len()
            invariant
                i <= order@.len(),
                list == self.scores.list(),
                full == ints(order@),
                ranked(list, name@, full),
                style@ == slot_style(slot),
                line_views(lines@) == self.drawn_part(slot, *objective, full.take(i as int)),
            decreases order@.len() - i,
        {
            proof {
                assert(full.take(i as int + 1).drop_last() =~= full.take(i as int));
                assert(full[i as int] == order@[i as int] as int);
                assert(full.contains(full[i as int]));
            }
            let (key, score) = self.scores.entry(order[i]);
            let ghost before_lines = lines@;
            let hidden: bool = slot == Slot::Sidebar && starts_with(key.0.as_str(), "#");
            if !hidden && !(slot == Slot::Sidebar && lines.len() >= SIDEBAR_LINES) {
                lines.push(self.line(slot, objective, key.0.as_str(), score, &style));
                proof {
                    assert(line_views(lines@) =~= line_views(before_lines).push(lines@.last()@));
                }
            }
            i += 1;
        }
        proof {
            assert(full.take(full.len() as int) =~= full);
            self.drawn_in_parts(slot, *objective, full);
        }
        Some((objective, lines))
    }

    /// The lines of an order of scores, as far as the slot draws them.
    pub open spec fn drawn_part(&self, slot: Slot, objective: Objective, order: Seq<int>) -> Seq<
        LineView,
    >
        decreases order.len(),
    {
        if order.len() == 0 {
            Seq::empty()
        } else {
            let so_far = self.drawn_part(slot, objective, order.drop_last());
            let (key, score) = self.scores.list()[order.last()];
            if slot == Slot::Sidebar && (hidden_owner(key.0) || so_far.len() >= SIDEBAR_LINES) {
                so_far
            } else {
                so_far.push(self.line_of(slot, objective, key.0, score))
            }
        }
    }

    /// The lines a slot draws of scores in order: on the sidebar without the hidden owners and no
    /// more than fit, elsewhere all of them.
    pub open spec fn drawn(&self, slot: Slot, objective: Objective, order: Seq<int>) -> Seq<LineView> {
        let list = self.scores.list();
        let shown = if slot == Slot::Sidebar {
            unhidden(list, order)
        } else {
            order
        };
        let count = if slot == Slot::Sidebar && shown.len() > SIDEBAR_LINES {
            SIDEBAR_LINES as nat
        } else {
            shown.len()
        };
        Seq::new(
            count,
            |i: int| self.line_of(slot, objective, list[shown[i]].0.0, list[shown[i]].1),
        )
    }

    proof fn drawn_in_parts(&self, slot: Slot, objective: Objective, order: Seq<int>)
        ensures
            self.drawn_part(slot, objective, order) == self.drawn(slot, objective, order),
        decreases order.len(),
    {
        let list = self.scores.list();
        if order.len() == 0 {
            assert(self.drawn(slot, objective, order) =~= Seq::empty());
        } else {
            self.drawn_in_parts(slot, objective, order.drop_last());
            assert(self.drawn_part(slot, objective, order) =~= self.drawn(slot, objective, order));
        }
    }

    /// Whether a vehicle is one that the server put a passenger on, or there is none.
    pub open spec fn rides_on(&self, passenger: i32, vehicle: Option<i32>) -> bool {
        match vehicle {
            Some(vehicle) => self.passengers@.dom().contains(vehicle)
                && self.passengers@[vehicle]@.contains(passenger),
            None => forall|vehicle: i32| #[trigger]
                self.passengers@.dom().contains(vehicle)
                    ==> !self.passengers@[vehicle]@.contains(passenger),
        }
    }

    /// The vehicle an entity sits on, by network id.
    pub fn vehicle_of(&self, passenger: i32) -> (r: Option<i32>)
        ensures
            self.rides_on(passenger, r),
    {
        let n: usize = self.passengers.len();
        let ghost list = self.passengers.list();
        let mut i: usize = 0;
        while i < n
            invariant
                i <= n == list.len(),
                list == self.passengers.list(),
                forall|k: int|
                    0 <= k < i ==> !(#[trigger] list[k]).1@.contains(passenger),
            decreases n - i,
        {
            let (vehicle, riders) = self.passengers.entry(i);
            if rides(riders, passenger) {
                return Some(*vehicle);
            }
            i += 1;
        }
        proof {
            assert forall|vehicle: i32| #[trigger]
                self.passengers@.dom().contains(vehicle) implies !self.passengers@[vehicle]@.contains(
                passenger,
            ) by {
                let at = crate::table::spot(list, vehicle);
                assert(list[at].0 == vehicle);
            }
        }
        None
    }

    /// Ticks until a cooldown group comes free, or None when it is free now.
    pub fn cooldown_left(&self, group: &str, ticks_now: u64) -> (r: Option<u64>)
        ensures
            r == if self.cooldowns@.dom().contains(group@) && self.cooldowns@[group@] > ticks_now {
                Some((self.cooldowns@[group@] - ticks_now) as u64)
            } else {
                None
            },
    {
        match self.cooldowns.get(&group.to_owned()) {
            Some(end) => if *end > ticks_now {
                Some(*end - ticks_now)
            } else {
                None
            },
            None => None,
        }
    }

    pub fn listed(&self, uuid: u128) -> (r: bool)
        ensures
            r == self.listed@.dom().contains(uuid),
    {
        self.listed.contains(&uuid)
    }

    /// The clock by its protocol id, as the server last set it.
    pub fn clock(&self, clock: u32) -> (r: Option<Clock>)
        ensures
            match r {
                Some(kept) => self.clocks@.dom().contains(clock) && self.clocks@[clock] == kept,
                None => !self.clocks@.dom().contains(clock),
            },
    {
        match self.clocks.get(&clock) {
            Some(kept) => Some(*kept),
            None => None,
        }
    }

    /// Ask the server to complete a command: the number the answer will come back under.
    pub fn ask(&mut self) -> (id: u32)
        ensures
            id == if old(self).next_completion == u32::MAX {
                0
            } else {
                old(self).next_completion + 1
            },
            *final(self) == (Hud {
                next_completion: id,
                completions: final(self).completions,
                ..*old(self)
            }),
            final(self).completions@ == old(self).completions@.insert(id, ()),
    {
        self.next_completion = self.next_completion.wrapping_add(1);
        self.completions.insert(self.next_completion, ());
        self.next_completion
    }

    pub fn forget(&mut self, id: u32)
        ensures
            *final(self) == (Hud { completions: final(self).completions, ..*old(self) }),
            final(self).completions@ == old(self).completions@.remove(id),
    {
        self.completions.remove(&id);
    }
}

fn rides(riders: &Vec<i32>, passenger: i32) -> (r: bool)
    ensures
        r == riders@.contains(passenger),
{
    let mut i: usize = 0;
    while i < riders.len()
        invariant
            i <= riders@.len(),
            forall|k: int| 0 <= k < i ==> riders@[k] != passenger,
        decreases riders@.len() - i,
    {
        if riders[i] == passenger {
            return true;
        }
        i += 1;
    }
    false
}

/// A list of places as integers.
pub open spec fn ints(list: Seq<usize>) -> Seq<int> {
    Seq::new(list.len(), |i: int| list[i] as int)
}

/// Whether a score comes before another on a board: the higher, and of two alike the one whose owner
/// comes first, whatever the case of its letters.
pub open spec fn outranks(
    a: ((Seq<char>, Seq<char>), Score),
    b: ((Seq<char>, Seq<char>), Score),
) -> bool {
    a.1.value > b.1.value || (a.1.value == b.1.value && before(
        lowercase_of(a.0.0),
        lowercase_of(b.0.0),
    ))
}

/// Whether `order` has, each once, the places of the first `n` scores that are of an objective, none
/// after one that it outranks.
pub open spec fn ranked_among(
    list: Seq<((Seq<char>, Seq<char>), Score)>,
    name: Seq<char>,
    order: Seq<int>,
    n: int,
) -> bool {
    &&& order.no_duplicates()
    &&& forall|i: int| #[trigger] order.contains(i) <==> 0 <= i < n && list[i].0.1 == name
    &&& forall|a: int, b: int|
        0 <= a < b < order.len() ==> !outranks(
            list[#[trigger] order[b]],
            list[#[trigger] order[a]],
        )
}

/// Whether `order` is the places of the scores of an objective in the order a board draws them.
pub open spec fn ranked(
    list: Seq<((Seq<char>, Seq<char>), Score)>,
    name: Seq<char>,
    order: Seq<int>,
) -> bool {
    ranked_among(list, name, order, list.len() as int)
}

proof fn outranking_carries_over(
    a: ((Seq<char>, Seq<char>), Score),
    b: ((Seq<char>, Seq<char>), Score),
    c: ((Seq<char>, Seq<char>), Score),
)
    requires
        outranks(a, b),
        !outranks(c, b),
    ensures
        !outranks(c, a),
        !outranks(b, a),
{
    let x = lowercase_of(a.0.0);
    let y = lowercase_of(b.0.0);
    let z = lowercase_of(c.0.0);
    texts_are_ordered(x, y);
    if a.1.value == b.1.value && b.1.value == c.1.value {
        order_carries_over(x, y, z);
    }
}

proof fn put_in_rank(
    list: Seq<((Seq<char>, Seq<char>), Score)>,
    name: Seq<char>,
    order: Seq<int>,
    i: int,
    p: int,
)
    requires
        ranked_among(list, name, order, i),
        0 <= i < list.len(),
        list[i].0.1 == name,
        0 <= p <= order.len(),
        forall|k: int| 0 <= k < p ==> !outranks(list[i], list[#[trigger] order[k]]),
        p < order.len() ==> outranks(list[i], list[order[p]]),
    ensures
        ranked_among(list, name, order.insert(p, i), i + 1),
{
    let next = order.insert(p, i);
    assert(!order.contains(i));
    assert forall|k: int| #[trigger] next.contains(k) <==> 0 <= k < i + 1 && list[k].0.1 == name by {
        if next.contains(k) {
            let at = next.index_of(k);
            if at < p {
                assert(order[at] == k);
                assert(order.contains(k));
            } else if at > p {
                assert(order[at - 1] == k);
                assert(order.contains(k));
            }
        }
        if 0 <= k < i && list[k].0.1 == name {
            assert(order.contains(k));
            let at = order.index_of(k);
            if at < p {
                assert(next[at] == k);
            } else {
                assert(next[at + 1] == k);
            }
        }
        if k == i {
            assert(next[p] == i);
        }
    }
    assert(next.no_duplicates()) by {
        assert forall|a: int, b: int| 0 <= a < b < next.len() implies next[a] != next[b] by {
            let x = if a < p {
                a
            } else {
                a - 1
            };
            let y = if b < p {
                b
            } else {
                b - 1
            };
            if a == p {
                assert(order.contains(order[y]));
            } else if b == p {
                assert(order.contains(order[x]));
            } else {
                assert(order[x] != order[y]);
            }
        }
    }
    assert forall|a: int, b: int| 0 <= a < b < next.len() implies !outranks(
        list[#[trigger] next[b]],
        list[#[trigger] next[a]],
    ) by {
        if a < p && b < p {
            assert(next[a] == order[a] && next[b] == order[b]);
        } else if a < p && b == p {
            assert(next[a] == order[a]);
        } else if a < p {
            assert(next[a] == order[a] && next[b] == order[b - 1]);
        } else if a == p {
            assert(next[b] == order[b - 1]);
            if b - 1 > p {
                assert(!outranks(list[order[b - 1]], list[order[p]]));
            }
            if b - 1 == p {
                texts_are_ordered(
                    lowercase_of(list[order[p]].0.0),
                    lowercase_of(list[order[p]].0.0),
                );
            }
            outranking_carries_over(list[i], list[order[p]], list[order[b - 1]]);
        } else {
            assert(next[a] == order[a - 1] && next[b] == order[b - 1]);
        }
    }
}

proof fn passed_over(
    list: Seq<((Seq<char>, Seq<char>), Score)>,
    name: Seq<char>,
    order: Seq<int>,
    i: int,
)
    requires
        ranked_among(list, name, order, i),
        0 <= i < list.len(),
        list[i].0.1 != name,
    ensures
        ranked_among(list, name, order, i + 1),
{
    assert forall|k: int| #[trigger] order.contains(k) <==> 0 <= k < i + 1 && list[k].0.1 == name by {
        if 0 <= k < i + 1 && list[k].0.1 == name {
            assert(k < i);
        }
    }
}

/// Whether an owner is left out of a sidebar.
pub open spec fn hidden_owner(owner: Seq<char>) -> bool {
    crate::words::begins(owner, "#"@)
}

/// The places of scores whose owners are not left out.
pub open spec fn unhidden(list: Seq<((Seq<char>, Seq<char>), Score)>, order: Seq<int>) -> Seq<int>
    decreases order.len(),
{
    if order.len() == 0 {
        order
    } else if hidden_owner(list[order.last()].0.0) {
        unhidden(list, order.drop_last())
    } else {
        unhidden(list, order.drop_last()).push(order.last())
    }
}

/// A sidebar has fifteen lines at most, and no owner that starts with a '#' has one.
pub proof fn a_sidebar_stops_at_fifteen_and_hides(
    hud: Hud,
    objective: Objective,
    order: Seq<int>,
)
    ensures
        hud.drawn(Slot::Sidebar, objective, order).len() <= 15,
        hud.drawn(Slot::Sidebar, objective, order).len() <= order.len(),
        forall|i: int|
            0 <= i < unhidden(hud.scores.list(), order).len() ==> !hidden_owner(
                hud.scores.list()[#[trigger] unhidden(hud.scores.list(), order)[i]].0.0,
            ) && order.contains(unhidden(hud.scores.list(), order)[i]),
{
    unhidden_is_part(hud.scores.list(), order);
}

proof fn unhidden_is_part(list: Seq<((Seq<char>, Seq<char>), Score)>, order: Seq<int>)
    ensures
        unhidden(list, order).len() <= order.len(),
        forall|i: int|
            0 <= i < unhidden(list, order).len() ==> !hidden_owner(
                list[#[trigger] unhidden(list, order)[i]].0.0,
            ) && order.contains(unhidden(list, order)[i]),
    decreases order.len(),
{
    if order.len() > 0 {
        unhidden_is_part(list, order.drop_last());
        assert forall|i: int| 0 <= i < unhidden(list, order).len() implies !hidden_owner(
            list[#[trigger] unhidden(list, order)[i]].0.0,
        ) && order.contains(unhidden(list, order)[i]) by {
            let rest = unhidden(list, order.drop_last());
            if i < rest.len() {
                assert(unhidden(list, order)[i] == rest[i]);
                let at = order.drop_last().index_of(rest[i]);
                assert(order[at] == rest[i]);
            } else {
                assert(order[order.len() - 1] == unhidden(list, order)[i]);
            }
        }
    }
}

/// The lines of a board come highest score first.
pub proof fn a_board_is_highest_first(
    hud: Hud,
    slot: Slot,
    objective: Objective,
    name: Seq<char>,
    order: Seq<int>,
    a: int,
    b: int,
)
    requires
        ranked(hud.scores.list(), name, order),
        0 <= a < b < hud.drawn(slot, objective, order).len(),
    ensures
        hud.drawn(slot, objective, order)[a].score >= hud.drawn(slot, objective, order)[b].score,
{
    let list = hud.scores.list();
    if slot == Slot::Sidebar {
        unhidden_keeps_order(list, order, a, b);
    } else {
        assert(!outranks(list[order[b]], list[order[a]]));
    }
}

proof fn unhidden_keeps_order(
    list: Seq<((Seq<char>, Seq<char>), Score)>,
    order: Seq<int>,
    a: int,
    b: int,
)
    requires
        0 <= a < b < unhidden(list, order).len(),
        forall|x: int, y: int|
            0 <= x < y < order.len() ==> !outranks(
                list[#[trigger] order[y]],
                list[#[trigger] order[x]],
            ),
    ensures
        list[unhidden(list, order)[a]].1.value >= list[unhidden(list, order)[b]].1.value,
    decreases order.len(),
{
    let rest = unhidden(list, order.drop_last());
    if b < rest.len() {
        unhidden_keeps_order(list, order.drop_last(), a, b);
    } else {
        unhidden_is_part(list, order.drop_last());
        let x = order.drop_last().index_of(rest[a]);
        assert(order[x] == rest[a]);
        assert(!outranks(list[order[order.len() - 1]], list[order[x]]));
    }
}

/// The sidebar slot a team colour names: none for a formatting such as bold or reset, which is no
/// colour.
fn team_slot(color: ChatFormatting) -> (r: Option<usize>)
    ensures
        match r {
            Some(slot) => colour_number(color) matches Some(n) && slot == FIRST_TEAM_SLOT + n && slot
                < DISPLAY_SLOTS,
            None => colour_number(color) is None,
        },
{
    match color.number() {
        Some(n) => Some(FIRST_TEAM_SLOT + n),
        None => None,
    }
}

/// The style a slot draws a score in that no format speaks of.
pub open spec fn slot_style(slot: Slot) -> StyleView {
    match slot {
        Slot::Sidebar => StyleView::coloured(colour_name(ChatFormatting::Red)),
        Slot::List => StyleView::coloured(colour_name(ChatFormatting::Yellow)),
        Slot::BelowName => StyleView::plain(),
    }
}

/// The score column: what the entry's own format makes of the score, else the objective's, else the
/// default style.
pub open spec fn formatted_of(score: Score, objective: Objective, default_style: StyleView) -> Doc {
    match (
        match score.number_format {
            Some(format) => Some(format),
            None => objective.number_format,
        }
    ) {
        Some(NumberFormat::Blank) => Doc::Text(Seq::empty()),
        Some(NumberFormat::Fixed(value)) => value@,
        Some(NumberFormat::Styled(style)) => styled_text(
            crate::words::dec(score.value as int),
            style@,
        ),
        None => styled_text(crate::words::dec(score.value as int), default_style),
    }
}

fn formatted(score: &Score, objective: &Objective, default_style: &Style) -> (r: Json)
    ensures
        r@ == formatted_of(*score, *objective, default_style@),
{
    let format: &Option<NumberFormat> = match score.number_format {
        Some(_) => &score.number_format,
        None => &objective.number_format,
    };
    match format {
        Some(NumberFormat::Blank) => {
            proof {
                reveal_strlit("");
                assert(""@ =~= Seq::empty());
            }
            Json::text("")
        },
        Some(NumberFormat::Fixed(value)) => value.copy(),
        Some(NumberFormat::Styled(style)) => styled(score.value, style),
        None => styled(score.value, default_style),
    }
}

/// What a packet does to a team.
pub enum TeamMethod {
    Add(Team, Vec<String>),
    Remove,
    Change(Team),
    Join(Vec<String>),
    Leave(Vec<String>),
}

/// What a packet does to a boss bar.
pub enum Operation {
    Add { name: Json, progress: u32, color: BossBarColor, overlay: BossBarOverlay },
    Remove,
    UpdateProgress(u32),
    UpdateName(Json),
    UpdateStyle { color: BossBarColor, overlay: BossBarOverlay },
    UpdateProperties,
}

/// What happens in the game at large. A level comes within nothing and one, as the bits of a single.
#[derive(Clone, Copy)]
pub enum GameEvent {
    StartRaining,
    StopRaining,
    RainLevelChange(u32),
    ThunderLevelChange(u32),
    WinGame,
    Other,
}

/// What of a packet the screen keeps something of.
#[allow(inconsistent_fields)]
pub enum Packet {
    /// An objective added or changed, or with none removed.
    SetObjective { name: String, objective: Option<Objective> },
    SetDisplayObjective { slot: usize, name: String },
    /// The score as it is on the wire, without its sign.
    SetScore {
        owner: String,
        objective: String,
        score: u32,
        display: Option<Json>,
        number_format: Option<NumberFormat>,
    },
    SetPlayerTeam { name: String, method: TeamMethod },
    ResetScore { owner: String, objective: Option<String> },
    BossEvent { id: u128, operation: Operation },
    /// Each clock that is set: its number, its ticks, and the bits of its rate.
    SetTime { clocks: Vec<(u32, u64, u32)> },
    GameEvent(GameEvent),
    /// The players whose place on the list is said, and whether they are on it.
    PlayerInfoUpdate { listed: Vec<(u128, bool)> },
    PlayerInfoRemove { players: Vec<u128> },
    SetPassengers { vehicle: i32, passengers: Vec<i32> },
    Cooldown { group: String, duration: u32 },
    Commands(Commands),
    CommandSuggestions { id: u32 },
    Login { player_id: i32, secure_chat: bool, dimension: Dimension },
    Respawn { dimension: Dimension },
    StartConfiguration,
    Other,
}

/// A number of 32 bits with its sign.
pub open spec fn with_sign(n: u32) -> int {
    if n < 0x8000_0000 {
        n as int
    } else {
        n - 0x1_0000_0000
    }
}

fn signed_of(n: u32) -> (r: i32)
    ensures
        r == with_sign(n),
{
    if n < 0x8000_0000 {
        n as i32
    } else {
        (n as i64 - 0x1_0000_0000) as i32
    }
}

/// The members once some were put on a team.
pub open spec fn enlisted(members: Map<Seq<char>, String>, list: Seq<String>, team: String) -> Map<
    Seq<char>,
    String,
>
    decreases list.len(),
{
    if list.len() == 0 {
        members
    } else {
        enlisted(members, list.drop_last(), team).insert(list.last()@, team)
    }
}

/// The members once some were taken off a team, those on another left where they are.
pub open spec fn discharged(members: Map<Seq<char>, String>, list: Seq<String>, team: Seq<char>) -> Map<
    Seq<char>,
    String,
>
    decreases list.len(),
{
    if list.len() == 0 {
        members
    } else {
        let so_far = discharged(members, list.drop_last(), team);
        if so_far.dom().contains(list.last()@) && so_far[list.last()@]@ == team {
            so_far.remove(list.last()@)
        } else {
            so_far
        }
    }
}

/// The members of every team but one.
pub open spec fn elsewhere(team: Seq<char>) -> spec_fn(Seq<char>, String) -> bool {
    |member: Seq<char>, on: String| on@ != team
}

/// The scores of every objective but one.
pub open spec fn of_others(objective: Seq<char>) -> spec_fn((Seq<char>, Seq<char>), Score) -> bool {
    |key: (Seq<char>, Seq<char>), score: Score| key.1 != objective
}

/// The scores of every owner but one.
pub open spec fn owned_by_others(owner: Seq<char>) -> spec_fn(
    (Seq<char>, Seq<char>),
    Score,
) -> bool {
    |key: (Seq<char>, Seq<char>), score: Score| key.0 != owner
}

/// The display slots with one objective taken out of them.
pub open spec fn undisplayed(names: Seq<Option<Seq<char>>>, objective: Seq<char>) -> Seq<
    Option<Seq<char>>,
> {
    Seq::new(
        names.len(),
        |i: int|
            if names[i] == Some(objective) {
                None
            } else {
                names[i]
            },
    )
}

/// The bars but one.
pub open spec fn without_bar(bars: Seq<Bar>, id: u128) -> Seq<Bar>
    decreases bars.len(),
{
    if bars.len() == 0 {
        bars
    } else if bars.last().id == id {
        without_bar(bars.drop_last(), id)
    } else {
        without_bar(bars.drop_last(), id).push(bars.last())
    }
}

/// A bar once an operation changed it.
pub open spec fn changed_bar(bar: Bar, operation: Operation) -> Bar {
    match operation {
        Operation::UpdateProgress(progress) => Bar { progress, ..bar },
        Operation::UpdateName(name) => Bar { name, ..bar },
        Operation::UpdateStyle { color, overlay } => Bar { color, overlay, ..bar },
        _ => bar,
    }
}

/// Where a bar first stands, or the end.
pub open spec fn bar_at(bars: Seq<Bar>, id: u128) -> int
    decreases bars.len(),
{
    if bars.len() == 0 || bars[0].id == id {
        0
    } else {
        1 + bar_at(bars.drop_first(), id)
    }
}

/// The bars once an operation was done.
pub open spec fn bars_after(bars: Seq<Bar>, id: u128, operation: Operation) -> Seq<Bar> {
    match operation {
        Operation::Add { name, progress, color, overlay } => without_bar(bars, id).push(
            Bar { id, name, progress, color, overlay },
        ),
        Operation::Remove => without_bar(bars, id),
        _ => if bar_at(bars, id) < bars.len() {
            bars.update(bar_at(bars, id), changed_bar(bars[bar_at(bars, id)], operation))
        } else {
            bars
        },
    }
}

/// The clocks once some were set.
pub open spec fn clocks_after(
    clocks: Map<u32, Clock>,
    list: Seq<(u32, u64, u32)>,
    ticks: u64,
) -> Map<u32, Clock>
    decreases list.len(),
{
    if list.len() == 0 {
        clocks
    } else {
        let (id, total_ticks, rate) = list.last();
        clocks_after(clocks, list.drop_last(), ticks).insert(
            id,
            Clock { total_ticks, rate, at_tick: ticks },
        )
    }
}

/// The players listed once some places on the list were said.
pub open spec fn listed_after(listed: Map<u128, ()>, list: Seq<(u128, bool)>) -> Map<u128, ()>
    decreases list.len(),
{
    if list.len() == 0 {
        listed
    } else {
        let so_far = listed_after(listed, list.drop_last());
        if list.last().1 {
            so_far.insert(list.last().0, ())
        } else {
            so_far.remove(list.last().0)
        }
    }
}

/// The players listed once some left.
pub open spec fn unlisted(listed: Map<u128, ()>, list: Seq<u128>) -> Map<u128, ()>
    decreases list.len(),
{
    if list.len() == 0 {
        listed
    } else {
        unlisted(listed, list.drop_last()).remove(list.last())
    }
}

/// What a packet makes of a screen: the parts it says something of, and every other as it was.
pub open spec fn keeps(old_hud: Hud, hud: Hud, packet: Packet, ticks: u64) -> bool {
    match packet {
        Packet::SetObjective { name, objective: Some(objective) } => {
            &&& hud == Hud { objectives: hud.objectives, ..old_hud }
            &&& hud.objectives@ == old_hud.objectives@.insert(name@, objective)
        },
        Packet::SetObjective { name, objective: None } => {
            &&& hud == Hud {
                objectives: hud.objectives,
                displayed: hud.displayed,
                scores: hud.scores,
                ..old_hud
            }
            &&& hud.objectives@ == old_hud.objectives@.remove(name@)
            &&& slot_names(hud.displayed@) == undisplayed(slot_names(old_hud.displayed@), name@)
            &&& hud.scores@ == kept_only(old_hud.scores@, of_others(name@))
        },
        Packet::SetDisplayObjective { slot, name } => {
            &&& hud == Hud { displayed: hud.displayed, ..old_hud }
            &&& slot_names(hud.displayed@) == slot_names(old_hud.displayed@).update(
                slot as int,
                if name@.len() == 0 {
                    None
                } else {
                    Some(name@)
                },
            )
        },
        Packet::SetScore { owner, objective, score, display, number_format } => {
            &&& hud == Hud { scores: hud.scores, ..old_hud }
            &&& hud.scores@ == old_hud.scores@.insert(
                (owner@, objective@),
                Score { value: with_sign(score) as i32, display, number_format },
            )
        },
        Packet::SetPlayerTeam { name, method: TeamMethod::Add(team, members) } => {
            &&& hud == Hud { teams: hud.teams, members: hud.members, ..old_hud }
            &&& hud.teams@ == old_hud.teams@.insert(name@, team)
            &&& hud.members@ == enlisted(old_hud.members@, members@, name)
        },
        Packet::SetPlayerTeam { name, method: TeamMethod::Remove } => {
            &&& hud == Hud { teams: hud.teams, members: hud.members, ..old_hud }
            &&& hud.teams@ == old_hud.teams@.remove(name@)
            &&& hud.members@ == kept_only(old_hud.members@, elsewhere(name@))
        },
        Packet::SetPlayerTeam { name, method: TeamMethod::Change(team) } => {
            &&& hud == Hud { teams: hud.teams, ..old_hud }
            &&& hud.teams@ == if old_hud.teams@.dom().contains(name@) {
                old_hud.teams@.insert(name@, team)
            } else {
                old_hud.teams@
            }
        },
        Packet::SetPlayerTeam { name, method: TeamMethod::Join(members) } => {
            &&& hud == Hud { members: hud.members, ..old_hud }
            &&& hud.members@ == if old_hud.teams@.dom().contains(name@) {
                enlisted(old_hud.members@, members@, name)
            } else {
                old_hud.members@
            }
        },
        Packet::SetPlayerTeam { name, method: TeamMethod::Leave(members) } => {
            &&& hud == Hud { members: hud.members, ..old_hud }
            &&& hud.members@ == discharged(old_hud.members@, members@, name@)
        },
        Packet::ResetScore { owner, objective: Some(objective) } => {
            &&& hud == Hud { scores: hud.scores, ..old_hud }
            &&& hud.scores@ == old_hud.scores@.remove((owner@, objective@))
        },
        Packet::ResetScore { owner, objective: None } => {
            &&& hud == Hud { scores: hud.scores, ..old_hud }
            &&& hud.scores@ == kept_only(old_hud.scores@, owned_by_others(owner@))
        },
        Packet::BossEvent { id, operation } => {
            &&& hud == Hud { bars: hud.bars, ..old_hud }
            &&& hud.bars@ == bars_after(old_hud.bars@, id, operation)
        },
        Packet::SetTime { clocks } => {
            &&& hud == Hud { clocks: hud.clocks, ..old_hud }
            &&& hud.clocks@ == clocks_after(old_hud.clocks@, clocks@, ticks)
        },
        Packet::GameEvent(event) => match event {
            GameEvent::StartRaining => hud == Hud { rain: 0, ..old_hud },
            GameEvent::StopRaining => hud == Hud { rain: FULL, ..old_hud },
            GameEvent::RainLevelChange(level) => hud == Hud { rain: level, ..old_hud },
            GameEvent::ThunderLevelChange(level) => hud == Hud { thunder: level, ..old_hud },
            GameEvent::WinGame => hud == Hud { credits: true, ..old_hud },
            GameEvent::Other => hud == old_hud,
        },
        Packet::PlayerInfoUpdate { listed } => {
            &&& hud == Hud { listed: hud.listed, ..old_hud }
            &&& hud.listed@ == listed_after(old_hud.listed@, listed@)
        },
        Packet::PlayerInfoRemove { players } => {
            &&& hud == Hud { listed: hud.listed, ..old_hud }
            &&& hud.listed@ == unlisted(old_hud.listed@, players@)
        },
        Packet::SetPassengers { vehicle, passengers } => {
            &&& hud == Hud { passengers: hud.passengers, ..old_hud }
            &&& hud.passengers@ == if passengers@.len() == 0 {
                old_hud.passengers@.remove(vehicle)
            } else {
                old_hud.passengers@.insert(vehicle, passengers)
            }
        },
        Packet::Cooldown { group, duration } => {
            &&& hud == Hud { cooldowns: hud.cooldowns, ..old_hud }
            &&& hud.cooldowns@ == if duration == 0 {
                old_hud.cooldowns@.remove(group@)
            } else {
                old_hud.cooldowns@.insert(group@, (ticks + duration) as u64)
            }
        },
        Packet::Commands(commands) => hud == Hud { commands: Some(commands), ..old_hud },
        Packet::CommandSuggestions { id } => {
            &&& hud == Hud { completions: hud.completions, ..old_hud }
            &&& hud.completions@ == old_hud.completions@.remove(id)
        },
        Packet::Login { player_id, secure_chat, dimension } => {
            &&& hud.is_fresh()
            &&& hud.logins == old_hud.logins + 1
            &&& hud.player_id == Some(player_id)
            &&& hud.signed_chat_only == secure_chat
            &&& hud.dimension == Some(dimension)
        },
        Packet::Respawn { dimension } => {
            &&& hud == Hud {
                credits: false,
                block_entities: hud.block_entities,
                sign_editor: None,
                command_editor: None,
                rain: 0,
                thunder: 0,
                passengers: hud.passengers,
                cooldowns: hud.cooldowns,
                dimension: Some(dimension),
                ..old_hud
            }
            &&& hud.block_entities@ == Map::<BlockPos, BlockEntity>::empty()
            &&& hud.passengers@ == Map::<i32, Vec<i32>>::empty()
            &&& hud.cooldowns@ == Map::<Seq<char>, u64>::empty()
        },
        Packet::StartConfiguration => hud == old_hud,
        Packet::Other => hud == old_hud,
    }
}

/// The bits of the single one, which is rain at its full.
pub const FULL: u32 = 0x3f80_0000;

/// Whether a packet is one the screen can take: its slot is one there is, and what it counts can be
/// counted on.
pub open spec fn takes(hud: Hud, packet: Packet, ticks: u64) -> bool {
    match packet {
        Packet::SetDisplayObjective { slot, .. } => slot < DISPLAY_SLOTS,
        Packet::Cooldown { duration, .. } => ticks + duration <= u64::MAX,
        Packet::Login { .. } => hud.logins < u64::MAX,
        _ => true,
    }
}

fn enlist(members: &mut Table<String, String>, list: &Vec<String>, team: &String)
    ensures
        final(members)@ == enlisted(old(members)@, list@, *team),
{
    let mut i: usize = 0;
    let ghost first = members@;
    while i < list.len()
        invariant
            i <= list@.len(),
            members@ == enlisted(first, list@.take(i as int), *team),
        decreases list@.len() - i,
    {
        proof {
            assert(list@.take(i as int + 1).drop_last() =~= list@.take(i as int));
        }
        members.insert(list[i].clone(), team.clone());
        i += 1;
    }
    proof {
        assert(list@.take(list@.len() as int) =~= list@);
    }
}

fn discharge(members: &mut Table<String, String>, list: &Vec<String>, team: &String)
    ensures
        final(members)@ == discharged(old(members)@, list@, team@),
{
    let mut i: usize = 0;
    let ghost first = members@;
    while i < list.len()
        invariant
            i <= list@.len(),
            members@ == discharged(first, list@.take(i as int), team@),
        decreases list@.len() - i,
    {
        proof {
            assert(list@.take(i as int + 1).drop_last() =~= list@.take(i as int));
        }
        let on: bool = match members.get(&list[i]) {
            Some(current) => same(current.as_str(), team.as_str()),
            None => false,
        };
        if on {
            members.remove(&list[i]);
        }
        i += 1;
    }
    proof {
        assert(list@.take(list@.len() as int) =~= list@);
    }
}

fn drop_bar(bars: &mut Vec<Bar>, id: u128)
    ensures
        final(bars)@ == without_bar(old(bars)@, id),
{
    let mut i: usize = 0;
    let ghost first = bars@;
    proof {
        assert(first.take(0) =~= Seq::<Bar>::empty());
        assert(bars@.take(0) =~= Seq::<Bar>::empty());
        assert(without_bar(first, id) == joined_bars(bars@.take(0), bars@.skip(0), id)) by {
            assert(bars@.skip(0) =~= first);
            nothing_before(first, id);
        }
    }
    while i < bars.len()
        invariant
            i <= bars@.len(),
            without_bar(first, id) == joined_bars(bars@.take(i as int), bars@.skip(i as int), id),
        decreases bars@.len() - i,
    {
        let ghost now = bars@;
        if bars[i].id == id {
            bars.remove(i);
            proof {
                front_out(now.take(i as int), now.skip(i as int), id);
                assert(bars@.take(i as int) =~= now.take(i as int));
                assert(bars@.skip(i as int) =~= now.skip(i as int).drop_first());
            }
        } else {
            proof {
                front_out(now.take(i as int), now.skip(i as int), id);
                assert(now.take(i as int + 1) =~= now.take(i as int).push(now[i as int]));
                assert(now.skip(i as int + 1) =~= now.skip(i as int).drop_first());
            }
            i += 1;
        }
    }
    proof {
        assert(bars@.take(i as int) =~= bars@);
        assert(bars@.skip(i as int) =~= Seq::<Bar>::empty());
        assert(without_bar(Seq::<Bar>::empty(), id) =~= Seq::<Bar>::empty());
        assert(bars@ + Seq::<Bar>::empty() =~= bars@);
    }
}

/// Bars that stay, and those of the rest that do.
pub open spec fn joined_bars(front: Seq<Bar>, rest: Seq<Bar>, id: u128) -> Seq<Bar> {
    front + without_bar(rest, id)
}

proof fn nothing_before(bars: Seq<Bar>, id: u128)
    ensures
        without_bar(bars, id) == joined_bars(bars.take(0), bars, id),
{
    assert(bars.take(0) + without_bar(bars, id) =~= without_bar(bars, id));
}

proof fn front_out(front: Seq<Bar>, rest: Seq<Bar>, id: u128)
    requires
        rest.len() > 0,
    ensures
        rest[0].id == id ==> joined_bars(front, rest, id) == joined_bars(
            front,
            rest.drop_first(),
            id,
        ),
        rest[0].id != id ==> joined_bars(front, rest, id) == joined_bars(
            front.push(rest[0]),
            rest.drop_first(),
            id,
        ),
    decreases rest.len(),
{
    if rest.len() == 1 {
        assert(rest.drop_last() =~= Seq::<Bar>::empty());
        assert(rest.drop_first() =~= Seq::<Bar>::empty());
        assert(front + Seq::<Bar>::empty().push(rest[0]) =~= front.push(rest[0])
            + Seq::<Bar>::empty());
    } else {
        front_out(front, rest.drop_last(), id);
        assert(rest.drop_first().drop_last() =~= rest.drop_last().drop_first());
        assert(joined_bars(front, rest, id) =~= if rest.last().id == id {
            joined_bars(front, rest.drop_last(), id)
        } else {
            joined_bars(front, rest.drop_last(), id).push(rest.last())
        });
        let next = if rest[0].id == id {
            front
        } else {
            front.push(rest[0])
        };
        assert(joined_bars(next, rest.drop_first(), id) =~= if rest.last().id == id {
            joined_bars(next, rest.drop_first().drop_last(), id)
        } else {
            joined_bars(next, rest.drop_first().drop_last(), id).push(rest.last())
        });
    }
}

fn find_bar(bars: &Vec<Bar>, id: u128) -> (r: usize)
    ensures
        r == bar_at(bars@, id),
        r <= bars@.len(),
{
    let mut i: usize = 0;
    proof {
        assert(bars@.skip(0) =~= bars@);
    }
    while i < bars.len()
        invariant
            i <= bars@.len(),
            bar_at(bars@, id) == i + bar_at(bars@.skip(i as int), id),
        decreases bars@.len() - i,
    {
        if bars[i].id == id {
            return i;
        }
        proof {
            assert(bars@.skip(i as int).drop_first() =~= bars@.skip(i as int + 1));
        }
        i += 1;
    }
    i
}

fn keep_bar(bars: &mut Vec<Bar>, id: u128, operation: Operation)
    ensures
        final(bars)@ == bars_after(old(bars)@, id, operation),
{
    match operation {
        Operation::Add { name, progress, color, overlay } => {
            drop_bar(bars, id);
            bars.push(Bar { id, name, progress, color, overlay });
        },
        Operation::Remove => drop_bar(bars, id),
        Operation::UpdateProgress(progress) => {
            let i: usize = find_bar(bars, id);
            if i < bars.len() {
                bars[i].progress = progress;
            }
        },
        Operation::UpdateName(name) => {
            let i: usize = find_bar(bars, id);
            if i < bars.len() {
                bars[i].name = name;
            }
        },
        Operation::UpdateStyle { color, overlay } => {
            let i: usize = find_bar(bars, id);
            if i < bars.len() {
                bars[i].color = color;
                bars[i].overlay = overlay;
            }
        },
        Operation::UpdateProperties => {
            proof {
                let i = bar_at(bars@, id);
                if i < bars@.len() {
                    bar_is_found(bars@, id);
                    assert(bars@.update(i, bars@[i]) =~= bars@);
                }
            }
        },
    }
}

proof fn bar_is_found(bars: Seq<Bar>, id: u128)
    ensures
        0 <= bar_at(bars, id) <= bars.len(),
    decreases bars.len(),
{
    if bars.len() > 0 {
        bar_is_found(bars.drop_first(), id);
    }
}

fn undisplay(displayed: &mut Vec<Option<String>>, name: &String)
    ensures
        final(displayed)@.len() == old(displayed)@.len(),
        slot_names(final(displayed)@) == undisplayed(slot_names(old(displayed)@), name@),
{
    let mut i: usize = 0;
    let ghost first = slot_names(displayed@);
    while i < displayed.len()
        invariant
            i <= displayed@.len(),
            displayed@.len() == first.len(),
            forall|k: int|
                0 <= k < i ==> #[trigger] slot_names(displayed@)[k] == undisplayed(first, name@)[k],
            forall|k: int|
                i <= k < first.len() ==> #[trigger] slot_names(displayed@)[k] == first[k],
        decreases displayed@.len() - i,
    {
        let ghost now = slot_names(displayed@);
        proof {
            assert(now[i as int] == first[i as int]);
        }
        let shows: bool = match &displayed[i] {
            Some(shown) => same(shown.as_str(), name.as_str()),
            None => false,
        };
        if shows {
            displayed.set(i, None);
        }
        proof {
            assert(slot_names(displayed@)[i as int] == undisplayed(first, name@)[i as int]);
            assert forall|k: int| 0 <= k < first.len() && k != i implies (#[trigger] slot_names(
                displayed@,
            )[k]) == now[k] by {}
        }
        i += 1;
    }
    proof {
        assert(slot_names(displayed@) =~= undisplayed(first, name@));
    }
}

/// Take what a packet says into the screen: the number of the completion it answers, where it
/// answers one that was asked for.
///
/// An empty name is how the server clears a slot. A team the client was never told of is left alone,
/// as the client leaves it. Starting rain begins from none, stopping from full. A duration of zero is
/// how the server ends a cooldown early. A login is a new world on a new connection as far as the
/// client is concerned: the scoreboard, the boss bars and the weather belong to the server it was on,
/// and a switch through a proxy would otherwise show the last backend's sidebar on the next one. A
/// respawn is a new level, which starts dry and with nobody riding anything, and a new player, whose
/// cooldowns belonged to the old one.
pub fn keep(hud: &mut Hud, packet: Packet, ticks: u64) -> (answered: Option<u32>)
    requires
        old(hud).valid(),
        takes(*old(hud), packet, ticks),
    ensures
        final(hud).valid(),
        keeps(*old(hud), *final(hud), packet, ticks),
        answered == match packet {
            Packet::CommandSuggestions { id } => if old(hud).completions@.dom().contains(id) {
                Some(id)
            } else {
                None
            },
            _ => None,
        },
{
    match packet {
        Packet::SetObjective { name, objective } => {
            match objective {
                Some(objective) => {
                    hud.objectives.insert(name, objective);
                },
                None => {
                    hud.objectives.remove(&name);
                    undisplay(&mut hud.displayed, &name);
                    let other = |key: &(String, String), _score: &Score| -> (r: bool)
                        ensures
                            r == (key.1@ != name@),
                    { !same(key.1.as_str(), name.as_str()) };
                    hud.scores.retain(other, Ghost(of_others(name@)));
                },
            }
            None
        },
        Packet::SetDisplayObjective { slot, name } => {
            let ghost given = name@;
            let empty: bool = same(name.as_str(), "");
            proof {
                reveal_strlit("");
                if given.len() == 0 {
                    assert(given =~= ""@);
                }
            }
            hud.displayed.set(
                slot,
                if empty {
                    None
                } else {
                    Some(name)
                },
            );
            proof {
                assert(slot_names(hud.displayed@) =~= slot_names(old(hud).displayed@).update(
                    slot as int,
                    if given.len() == 0 {
                        None
                    } else {
                        Some(given)
                    },
                ));
            }
            None
        },
        Packet::SetScore { owner, objective, score, display, number_format } => {
            hud.scores.insert(
                (owner, objective),
                Score { value: signed_of(score), display, number_format },
            );
            None
        },
        Packet::SetPlayerTeam { name, method } => {
            match method {
                TeamMethod::Add(team, members) => {
                    hud.teams.insert(name.clone(), team);
                    enlist(&mut hud.members, &members, &name);
                },
                TeamMethod::Remove => {
                    hud.teams.remove(&name);
                    let other = |_member: &String, team: &String| -> (r: bool)
                        ensures
                            r == (team@ != name@),
                    { !same(team.as_str(), name.as_str()) };
                    hud.members.retain(other, Ghost(elsewhere(name@)));
                },
                TeamMethod::Change(team) => {
                    if hud.teams.contains(&name) {
                        hud.teams.insert(name, team);
                    }
                },
                TeamMethod::Join(members) => {
                    if hud.teams.contains(&name) {
                        enlist(&mut hud.members, &members, &name);
                    }
                },
                TeamMethod::Leave(members) => discharge(&mut hud.members, &members, &name),
            }
            None
        },
        Packet::ResetScore { owner, objective } => {
            match objective {
                Some(objective) => {
                    hud.scores.remove(&(owner, objective));
                },
                None => {
                    let other = |key: &(String, String), _score: &Score| -> (r: bool)
                        ensures
                            r == (key.0@ != owner@),
                    { !same(key.0.as_str(), owner.as_str()) };
                    hud.scores.retain(other, Ghost(owned_by_others(owner@)));
                },
            }
            None
        },
        Packet::BossEvent { id, operation } => {
            keep_bar(&mut hud.bars, id, operation);
            None
        },
        Packet::SetTime { clocks } => {
            let mut i: usize = 0;
            let ghost first = *hud;
            while i < clocks.len()
                invariant
                    i <= clocks@.len(),
                    *hud == (Hud { clocks: hud.clocks, ..first }),
                    hud.clocks@ == clocks_after(first.clocks@, clocks@.take(i as int), ticks),
                decreases clocks@.len() - i,
            {
                proof {
                    assert(clocks@.take(i as int + 1).drop_last() =~= clocks@.take(i as int));
                }
                let (id, total_ticks, rate) = clocks[i];
                hud.clocks.insert(id, Clock { total_ticks, rate, at_tick: ticks });
                i += 1;
            }
            proof {
                assert(clocks@.take(clocks@.len() as int) =~= clocks@);
            }
            None
        },
        Packet::GameEvent(event) => {
            match event {
                GameEvent::StartRaining => {
                    hud.rain = 0;
                },
                GameEvent::StopRaining => {
                    hud.rain = FULL;
                },
                GameEvent::RainLevelChange(level) => {
                    hud.rain = level;
                },
                GameEvent::ThunderLevelChange(level) => {
                    hud.thunder = level;
                },
                GameEvent::WinGame => {
                    hud.credits = true;
                },
                GameEvent::Other => {},
            }
            None
        },
        Packet::PlayerInfoUpdate { listed } => {
            let mut i: usize = 0;
            let ghost first = *hud;
            while i < listed.len()
                invariant
                    i <= listed@.len(),
                    *hud == (Hud { listed: hud.listed, ..first }),
                    hud.listed@ == listed_after(first.listed@, listed@.take(i as int)),
                decreases listed@.len() - i,
            {
                proof {
                    assert(listed@.take(i as int + 1).drop_last() =~= listed@.take(i as int));
                }
                let (uuid, on) = listed[i];
                if on {
                    hud.listed.insert(uuid, ());
                } else {
                    hud.listed.remove(&uuid);
                }
                i += 1;
            }
            proof {
                assert(listed@.take(listed@.len() as int) =~= listed@);
            }
            None
        },
        Packet::PlayerInfoRemove { players } => {
            let mut i: usize = 0;
            let ghost first = *hud;
            while i < players.len()
                invariant
                    i <= players@.len(),
                    *hud == (Hud { listed: hud.listed, ..first }),
                    hud.listed@ == unlisted(first.listed@, players@.take(i as int)),
                decreases players@.len() - i,
            {
                proof {
                    assert(players@.take(i as int + 1).drop_last() =~= players@.take(i as int));
                }
                hud.listed.remove(&players[i]);
                i += 1;
            }
            proof {
                assert(players@.take(players@.len() as int) =~= players@);
            }
            None
        },
        Packet::SetPassengers { vehicle, passengers } => {
            if passengers.len() == 0 {
                hud.passengers.remove(&vehicle);
            } else {
                hud.passengers.insert(vehicle, passengers);
            }
            None
        },
        Packet::Cooldown { group, duration } => {
            if duration == 0 {
                hud.cooldowns.remove(&group);
            } else {
                hud.cooldowns.insert(group, ticks + duration as u64);
            }
            None
        },
        Packet::Commands(commands) => {
            hud.commands = Some(commands);
            None
        },
        Packet::CommandSuggestions { id } => {
            match hud.completions.remove(&id) {
                Some(_) => Some(id),
                None => None,
            }
        },
        Packet::Login { player_id, secure_chat, dimension } => {
            let logins: u64 = hud.logins + 1;
            let mut fresh = Hud::new();
            fresh.logins = logins;
            fresh.player_id = Some(player_id);
            fresh.signed_chat_only = secure_chat;
            fresh.dimension = Some(dimension);
            *hud = fresh;
            None
        },
        Packet::Respawn { dimension } => {
            hud.credits = false;
            hud.block_entities.clear();
            hud.sign_editor = None;
            hud.command_editor = None;
            hud.rain = 0;
            hud.thunder = 0;
            hud.passengers.clear();
            hud.cooldowns.clear();
            hud.dimension = Some(dimension);
            None
        },
        Packet::StartConfiguration => None,
        Packet::Other => None,
    }
}

/// A line the client draws: what it reads, the pieces it is drawn from, and the component.
pub struct Drawn {
    pub text: String,
    pub segments: Json,
    pub component: Json,
}

/// A block entity of a chunk, by its place in it.
pub struct ChunkEntity {
    /// The place along x in the upper four bits, along z in the lower.
    pub packed_xz: u8,
    pub y: i16,
    pub entity: BlockEntity,
}

/// What comes in that something on the screen is made of.
pub enum Incoming {
    ActionBar(Drawn),
    Title(Drawn),
    Subtitle(Drawn),
    /// A dialog, where its definition could be read, and the number each of its sliders starts on.
    ShowDialog { definition: Option<Json>, sliders: Vec<(String, Slider)> },
    ClearDialog,
    Chunk { x: i32, z: i32, entities: Vec<ChunkEntity> },
    ForgetChunk { x: i32, z: i32 },
    /// A block entity's data, with whether the block at its place is conditional.
    EntityData { at: BlockPos, entity: BlockEntity, conditional: bool },
    EntityEvent { entity_id: i32, event_id: u8 },
    /// A sign to edit, with the name of the block that is there.
    OpenSign { at: BlockPos, front: bool, block: String },
    Sound(String),
    Kept(Packet),
}

/// What follows outside the screen.
pub enum Effect {
    /// A line for its feed.
    Fold(FeedLine),
    Sound(String),
    /// A completion that was asked for is answered.
    Answer(u32),
    /// The connection goes back to configuration.
    Reconfiguring,
    /// The bot is in a world again.
    Arrived,
}

/// Whether an effect is a line drawn on a feed.
pub open spec fn draws(effect: Effect, kind: Seq<char>, source: Seq<char>, line: Drawn) -> bool {
    effect matches Effect::Fold(fold) && fold@ == feeds::drawn_line(
        kind,
        source,
        line.text@,
        line.segments@,
        line.component@,
    )
}

/// The place of a block entity of a chunk.
pub open spec fn chunk_place(x: i32, z: i32, packed_xz: u8, y: i16) -> BlockPos {
    BlockPos {
        x: (x * 16 + packed_xz / 16) as i32,
        y: y as i32,
        z: (z * 16 + packed_xz % 16) as i32,
    }
}

/// The block entities once those of a chunk were kept.
pub open spec fn with_chunk(
    kept: Map<BlockPos, BlockEntity>,
    x: i32,
    z: i32,
    entities: Seq<ChunkEntity>,
) -> Map<BlockPos, BlockEntity>
    decreases entities.len(),
{
    if entities.len() == 0 {
        kept
    } else {
        let last = entities.last();
        with_chunk(kept, x, z, entities.drop_last()).insert(
            chunk_place(x, z, last.packed_xz, last.y),
            last.entity,
        )
    }
}

/// Whether a chunk lies where its blocks can be numbered.
pub open spec fn in_reach(x: i32, z: i32) -> bool {
    -0x800_0000 <= x < 0x800_0000 && -0x800_0000 <= z < 0x800_0000
}

/// Whether the screen can take what comes in.
pub open spec fn accepts(hud: Hud, incoming: Incoming, ticks: u64) -> bool {
    match incoming {
        Incoming::Chunk { x, z, .. } => in_reach(x, z),
        Incoming::Kept(packet) => takes(hud, packet, ticks),
        _ => true,
    }
}

/// The four lines a sign starts from when its editor opens: what the sign has on that face, where
/// the block it was sent for is still there.
pub open spec fn sign_start(hud: Hud, at: BlockPos, block: Seq<char>, front: bool) -> Seq<Seq<char>> {
    let face = if front {
        "front_text"@
    } else {
        "back_text"@
    };
    if hud.block_entities@.dom().contains(at) && hud.block_entities@[at].fits(block) {
        Seq::new(4, |i: int| face_lines(hud.block_entities@[at].data@, face)[i].words())
    } else {
        Seq::new(4, |i: int| Seq::<char>::empty())
    }
}

/// What follows outside the screen from a packet it kept something of.
pub open spec fn follows(old_hud: Hud, hud: Hud, packet: Packet, effects: Seq<Effect>) -> bool {
    match packet {
        Packet::CommandSuggestions { id } => effects == if old_hud.completions@.dom().contains(id) {
            seq![Effect::Answer(id)]
        } else {
            Seq::empty()
        },
        Packet::StartConfiguration => effects == seq![Effect::Reconfiguring],
        Packet::Login { .. } => effects == if hud.logins > 1 {
            seq![Effect::Arrived]
        } else {
            Seq::empty()
        },
        _ => effects == Seq::<Effect>::empty(),
    }
}

/// What comes in, taken into the screen, with what follows.
pub open spec fn applied(
    old_hud: Hud,
    hud: Hud,
    incoming: Incoming,
    ticks: u64,
    effects: Seq<Effect>,
) -> bool {
    match incoming {
        Incoming::ActionBar(line) => hud == old_hud && effects.len() == 1 && draws(
            effects[0],
            "actionBar"@,
            "actionbar"@,
            line,
        ),
        Incoming::Title(line) => hud == old_hud && effects.len() == 1 && draws(
            effects[0],
            "title"@,
            "title"@,
            line,
        ),
        Incoming::Subtitle(line) => hud == old_hud && effects.len() == 1 && draws(
            effects[0],
            "title"@,
            "subtitle"@,
            line,
        ),
        Incoming::ShowDialog { definition, sliders } => {
            let shown = match definition {
                Some(definition) => definition@,
                None => Doc::Null,
            };
            &&& hud == Hud { dialog: hud.dialog, ..old_hud }
            &&& hud.dialog matches Some(open) && open.definition@ == shown && open.holding()
                == starts(shown, sliders@, inputs_of(shown).len() as int)
            &&& definition is None ==> effects.len() == 0
            &&& definition is Some ==> effects.len() == 1 && (effects[0] matches Effect::Fold(line)
                && line@ == feeds::dialog_line(shown))
        },
        Incoming::ClearDialog => {
            &&& hud == Hud { dialog: None, ..old_hud }
            &&& effects.len() == 1
            &&& effects[0] matches Effect::Fold(line) && line@ == feeds::closed_line()
        },
        Incoming::Chunk { x, z, entities } => {
            &&& hud == Hud { block_entities: hud.block_entities, ..old_hud }
            &&& hud.block_entities@ == with_chunk(
                kept_only(old_hud.block_entities@, outside_chunk(x, z)),
                x,
                z,
                entities@,
            )
            &&& effects.len() == 0
        },
        Incoming::ForgetChunk { x, z } => {
            &&& hud == Hud { block_entities: hud.block_entities, ..old_hud }
            &&& hud.block_entities@ == kept_only(old_hud.block_entities@, outside_chunk(x, z))
            &&& effects.len() == 0
        },
        Incoming::EntityData { at, entity, conditional } => {
            &&& hud == Hud {
                block_entities: hud.block_entities,
                command_editor: hud.command_editor,
                ..old_hud
            }
            &&& hud.block_entities@ == old_hud.block_entities@.insert(at, entity)
            &&& match old_hud.command_editor {
                Some(editor) => if editor.at == at {
                    hud.command_editor matches Some(now) && now.at == at && now.is_filled(
                        entity.data@,
                        match entity.block {
                            Some(block) => block@,
                            None => Seq::empty(),
                        },
                        conditional,
                    )
                } else {
                    hud.command_editor == old_hud.command_editor
                },
                None => hud.command_editor is None,
            }
            &&& effects.len() == 0
        },
        Incoming::EntityEvent { entity_id, event_id } => {
            &&& hud == if 24 <= event_id <= 28 && old_hud.player_id == Some(entity_id) {
                Hud { permission_level: (event_id - 24) as u8, ..old_hud }
            } else {
                old_hud
            }
            &&& effects.len() == 0
        },
        Incoming::OpenSign { at, front, block } => {
            &&& hud == Hud { sign_editor: hud.sign_editor, ..old_hud }
            &&& hud.sign_editor matches Some(editor) && editor.at == at && editor.front == front
                && editor.hanging == ends(block@, "hanging_sign"@) && texts(editor.lines@)
                == sign_start(old_hud, at, block@, front)
            &&& effects.len() == 0
        },
        Incoming::Sound(id) => hud == old_hud && effects == seq![Effect::Sound(id)],
        Incoming::Kept(packet) => keeps(old_hud, hud, packet, ticks) && follows(
            old_hud,
            hud,
            packet,
            effects,
        ),
    }
}

/// Take what came in into the screen, and say what follows outside it.
///
/// A dialog is open even when it could not be read, because keys go to it either way. The editor that
/// opened before the block's command arrived is filled in once it does, as the client fills it.
/// Events 24 to 28 set the operator level, 0 to 4, and only ever for the player's own entity. A
/// switch through a proxy ends in a login on the same connection, which nothing else announces.
pub fn apply(hud: &mut Hud, incoming: Incoming, ticks: u64) -> (effects: Vec<Effect>)
    requires
        old(hud).valid(),
        accepts(*old(hud), incoming, ticks),
    ensures
        final(hud).valid(),
        applied(*old(hud), *final(hud), incoming, ticks, effects@),
{
    let mut effects: Vec<Effect> = Vec::new();
    match incoming {
        Incoming::ActionBar(line) => {
            effects.push(
                Effect::Fold(
                    feeds::drawn(
                        "actionBar",
                        "actionbar",
                        line.text,
                        line.segments,
                        line.component,
                    ),
                ),
            );
        },
        Incoming::Title(line) => {
            effects.push(
                Effect::Fold(
                    feeds::drawn("title", "title", line.text, line.segments, line.component),
                ),
            );
        },
        Incoming::Subtitle(line) => {
            effects.push(
                Effect::Fold(
                    feeds::drawn("title", "subtitle", line.text, line.segments, line.component),
                ),
            );
        },
        Incoming::ShowDialog { definition, sliders } => {
            let shown = match definition {
                Some(definition) => {
                    effects.push(Effect::Fold(feeds::dialog(&definition)));
                    definition
                },
                None => Json::Null,
            };
            hud.dialog = Some(Open::new(shown, sliders));
        },
        Incoming::ClearDialog => {
            hud.dialog = None;
            effects.push(Effect::Fold(feeds::dialog_closed()));
        },
        Incoming::Chunk { x, z, entities } => {
            hud.block_entities.forget_chunk(x, z);
            keep_chunk(&mut hud.block_entities, x, z, entities);
        },
        Incoming::ForgetChunk { x, z } => hud.block_entities.forget_chunk(x, z),
        Incoming::EntityData { at, entity, conditional } => {
            let none = String::new();
            proof {
                reveal_strlit("");
                assert(""@ =~= Seq::empty());
            }
            let block: &str = match &entity.block {
                Some(block) => block.as_str(),
                None => none.as_str(),
            };
            match &mut hud.command_editor {
                Some(editor) => {
                    if editor.at == at {
                        editor.load(&entity.data, block, conditional);
                    }
                },
                None => {},
            }
            hud.block_entities.keep(at, entity);
        },
        Incoming::EntityEvent { entity_id, event_id } => {
            if 24 <= event_id && event_id <= 28 {
                match hud.player_id {
                    Some(id) => {
                        if id == entity_id {
                            hud.permission_level = event_id - 24;
                        }
                    },
                    None => {},
                }
            }
        },
        Incoming::OpenSign { at, front, block } => {
            let face: &str = if front {
                "front_text"
            } else {
                "back_text"
            };
            proof {
                reveal_strlit("");
                assert(""@ =~= Seq::empty());
            }
            let lines: [String; 4] = match hud.block_entities.at(at, block.as_str()) {
                Some(sign) => {
                    let (kept, _) = sign_face(&sign.data, face);
                    proof {
                        assert(texts(kept@).len() == 4);
                        assert forall|i: int| 0 <= i < 4 implies kept@[i]@ == face_lines(
                            sign.data@,
                            face@,
                        )[i].words() by {
                            assert(texts(kept@)[i] == kept@[i]@);
                        }
                    }
                    let lines = [
                        kept[0].clone(),
                        kept[1].clone(),
                        kept[2].clone(),
                        kept[3].clone(),
                    ];
                    proof {
                        assert(texts(lines@) =~= sign_start(*hud, at, block@, front));
                    }
                    lines
                },
                None => {
                    let lines = [
                        "".to_owned(),
                        "".to_owned(),
                        "".to_owned(),
                        "".to_owned(),
                    ];
                    proof {
                        assert(texts(lines@) =~= sign_start(*hud, at, block@, front));
                    }
                    lines
                },
            };
            hud.sign_editor =
            Some(
                SignEditor {
                    at,
                    front,
                    hanging: ends_with(block.as_str(), "hanging_sign"),
                    lines,
                },
            );
        },
        Incoming::Sound(id) => {
            effects.push(Effect::Sound(id));
            proof {
                assert(effects@ =~= seq![Effect::Sound(id)]);
            }
        },
        Incoming::Kept(packet) => {
            let reconfigures: bool = match &packet {
                Packet::StartConfiguration => true,
                _ => false,
            };
            let logs_in: bool = match &packet {
                Packet::Login { .. } => true,
                _ => false,
            };
            let answered = keep(hud, packet, ticks);
            match answered {
                Some(id) => {
                    effects.push(Effect::Answer(id));
                    proof {
                        assert(effects@ =~= seq![Effect::Answer(id)]);
                    }
                },
                None => {},
            }
            if reconfigures {
                effects.push(Effect::Reconfiguring);
                proof {
                    assert(effects@ =~= seq![Effect::Reconfiguring]);
                }
            }
            if logs_in && hud.logins > 1 {
                effects.push(Effect::Arrived);
                proof {
                    assert(effects@ =~= seq![Effect::Arrived]);
                }
            }
        },
    }
    effects
}

fn keep_chunk(kept: &mut BlockEntities, x: i32, z: i32, entities: Vec<ChunkEntity>)
    requires
        in_reach(x, z),
    ensures
        final(kept)@ == with_chunk(old(kept)@, x, z, entities@),
{
    let ghost all = entities@;
    let ghost first = kept@;
    let mut rest = entities;
    let ghost mut done: int = 0;
    proof {
        assert(all.skip(0) =~= all);
    }
    while rest.len() > 0
        invariant
            in_reach(x, z),
            0 <= done,
            done + rest@.len() == all.len(),
            rest@ == all.skip(done),
            kept@ == with_chunk(first, x, z, all.take(done)),
        decreases rest@.len(),
    {
        proof {
            assert(all.take(done + 1).drop_last() =~= all.take(done));
            assert(rest@[0] == all[done]);
            assert(rest@.remove(0) =~= all.skip(done + 1));
        }
        let one = rest.remove(0);
        let at = BlockPos {
            x: x * 16 + (one.packed_xz / 16) as i32,
            y: one.y as i32,
            z: z * 16 + (one.packed_xz % 16) as i32,
        };
        kept.keep(at, one.entity);
        proof {
            done = done + 1;
        }
    }
    proof {
        assert(all.take(done) =~= all);
    }
}

/// A login leaves nothing of the screen that was there before it.
pub proof fn a_login_starts_a_screen_over(old_hud: Hud, hud: Hud, packet: Packet, ticks: u64)
    requires
        packet is Login,
        keeps(old_hud, hud, packet, ticks),
    ensures
        hud.is_fresh(),
        forall|slot: Slot, me: Seq<char>| #[trigger] hud.shown_in(slot, me) is None,
{
    assert forall|slot: Slot, me: Seq<char>| #[trigger] hud.shown_in(slot, me) is None by {
        assert(slot_names(hud.displayed@)[slot_number(slot)] is None);
    }
}

/// An objective that is removed is shown in no slot and has no score left.
pub proof fn a_removed_objective_is_gone(old_hud: Hud, hud: Hud, name: String, ticks: u64)
    requires
        keeps(old_hud, hud, (Packet::SetObjective { name, objective: None }), ticks),
    ensures
        !hud.objectives@.dom().contains(name@),
        forall|slot: Slot, me: Seq<char>|
            old_hud.valid() ==> #[trigger] hud.shown_in(slot, me) != Some(name@),
        forall|owner: Seq<char>| !#[trigger] hud.scores@.dom().contains((owner, name@)),
{
    let names = slot_names(hud.displayed@);
    assert forall|slot: Slot, me: Seq<char>| old_hud.valid() implies #[trigger] hud.shown_in(
        slot,
        me,
    ) != Some(name@) by {
        assert(names.len() == DISPLAY_SLOTS);
        assert(names[slot_number(slot)] != Some(name@));
        match hud.team_of_name(me) {
            Some(team) => {
                match colour_number(team.color) {
                    Some(n) => {
                        assert(names[FIRST_TEAM_SLOT + n] != Some(name@));
                    },
                    None => {},
                }
            },
            None => {},
        }
    }
}

/// Putting a name on a team that the client knows moves it there from wherever it was.
pub proof fn joining_moves_a_name(
    old_hud: Hud,
    hud: Hud,
    name: String,
    members: Vec<String>,
    i: int,
    ticks: u64,
)
    requires
        keeps(
            old_hud,
            hud,
            (Packet::SetPlayerTeam { name, method: TeamMethod::Join(members) }),
            ticks,
        ),
        old_hud.teams@.dom().contains(name@),
        0 <= i < members@.len(),
    ensures
        hud.team_of_name(members@[i]@) == Some(old_hud.teams@[name@]),
{
    enlisting_moves(old_hud.members@, members@, name, i);
}

proof fn enlisting_moves(members: Map<Seq<char>, String>, list: Seq<String>, team: String, i: int)
    requires
        0 <= i < list.len(),
    ensures
        enlisted(members, list, team).dom().contains(list[i]@),
        enlisted(members, list, team)[list[i]@] == team,
    decreases list.len(),
{
    if i < list.len() - 1 {
        enlisting_moves(members, list.drop_last(), team, i);
    }
}

/// Whether every team a name is on is a team the client knows.
pub open spec fn teams_known(hud: Hud) -> bool {
    forall|member: Seq<char>| #[trigger]
        hud.members@.dom().contains(member) ==> hud.teams@.dom().contains(hud.members@[member]@)
}

proof fn enlisted_or_as_before(
    members: Map<Seq<char>, String>,
    list: Seq<String>,
    team: String,
    member: Seq<char>,
)
    requires
        enlisted(members, list, team).dom().contains(member),
    ensures
        enlisted(members, list, team)[member] == team || (members.dom().contains(member) && enlisted(
            members,
            list,
            team,
        )[member] == members[member]),
    decreases list.len(),
{
    if list.len() > 0 && list.last()@ != member {
        enlisted_or_as_before(members, list.drop_last(), team, member);
    }
}

proof fn discharged_as_before(
    members: Map<Seq<char>, String>,
    list: Seq<String>,
    team: Seq<char>,
    member: Seq<char>,
)
    requires
        discharged(members, list, team).dom().contains(member),
    ensures
        members.dom().contains(member),
        discharged(members, list, team)[member] == members[member],
    decreases list.len(),
{
    if list.len() > 0 {
        discharged_as_before(members, list.drop_last(), team, member);
    }
}

/// A screen with nothing on it has no name on a team it does not know.
pub proof fn a_fresh_screen_knows_its_teams(hud: Hud)
    requires
        hud.is_fresh(),
    ensures
        teams_known(hud),
{
}

/// Whatever packet comes in, every team a name is on stays one the client knows.
pub proof fn every_members_team_is_known(old_hud: Hud, hud: Hud, packet: Packet, ticks: u64)
    requires
        teams_known(old_hud),
        keeps(old_hud, hud, packet, ticks),
    ensures
        teams_known(hud),
{
    assert forall|member: Seq<char>| #[trigger]
        hud.members@.dom().contains(member) implies hud.teams@.dom().contains(
        hud.members@[member]@,
    ) by {
        match packet {
            Packet::SetPlayerTeam { name, method: TeamMethod::Add(team, members) } => {
                enlisted_or_as_before(old_hud.members@, members@, name, member);
            },
            Packet::SetPlayerTeam { name, method: TeamMethod::Join(members) } => {
                if old_hud.teams@.dom().contains(name@) {
                    enlisted_or_as_before(old_hud.members@, members@, name, member);
                }
            },
            Packet::SetPlayerTeam { name, method: TeamMethod::Leave(members) } => {
                discharged_as_before(old_hud.members@, members@, name@, member);
            },
            _ => {},
        }
    }
}

/// The same of everything that comes in.
pub proof fn whatever_comes_in_every_members_team_is_known(
    old_hud: Hud,
    hud: Hud,
    incoming: Incoming,
    ticks: u64,
    effects: Seq<Effect>,
)
    requires
        teams_known(old_hud),
        applied(old_hud, hud, incoming, ticks, effects),
    ensures
        teams_known(hud),
{
    match incoming {
        Incoming::Kept(packet) => {
            every_members_team_is_known(old_hud, hud, packet, ticks);
        },
        _ => {},
    }
}

/// Removing a team takes every name off it, joining a team the client does not know moves nobody,
/// and changing a team moves nobody and makes no team that was not there.
pub proof fn membership_follows_the_teams(old_hud: Hud, hud: Hud, name: String, method: TeamMethod, ticks: u64)
    requires
        keeps(old_hud, hud, (Packet::SetPlayerTeam { name, method }), ticks),
    ensures
        method is Remove ==> !hud.teams@.dom().contains(name@) && forall|member: Seq<char>| #[trigger]
            hud.members@.dom().contains(member) ==> hud.members@[member]@ != name@,
        method is Join && !old_hud.teams@.dom().contains(name@) ==> hud.members@ == old_hud.members@
            && hud.teams@ == old_hud.teams@,
        method is Change ==> hud.members@ == old_hud.members@,
        method is Change && !old_hud.teams@.dom().contains(name@) ==> hud.teams@ == old_hud.teams@,
{
}

proof fn without_bar_keeps_the_others(bars: Seq<Bar>, id: u128, bar: Bar)
    ensures
        without_bar(bars, id).contains(bar) <==> bars.contains(bar) && bar.id != id,
        without_bar(bars, id).len() <= bars.len(),
    decreases bars.len(),
{
    if bars.len() > 0 {
        let rest = bars.drop_last();
        without_bar_keeps_the_others(rest, id, bar);
        let less = without_bar(rest, id);
        let all = without_bar(bars, id);
        if all.contains(bar) {
            let i = all.index_of(bar);
            if i < less.len() {
                assert(less[i] == bar);
                let j = rest.index_of(bar);
                assert(bars[j] == bar);
            } else {
                assert(bars[bars.len() - 1] == bar);
            }
        }
        if bars.contains(bar) && bar.id != id {
            let j = bars.index_of(bar);
            if j < rest.len() {
                assert(rest[j] == bar);
                let i = less.index_of(bar);
                assert(all[i] == bar);
            } else {
                assert(all[all.len() - 1] == bar);
            }
        }
    }
}

proof fn first_of_its_id(bars: Seq<Bar>, id: u128, i: int)
    requires
        0 <= i < bars.len(),
        bars[i].id == id,
        forall|j: int| 0 <= j < i ==> (#[trigger] bars[j]).id != id,
    ensures
        bar_at(bars, id) == i,
    decreases bars.len(),
{
    if i > 0 {
        let rest = bars.drop_first();
        assert(bars[0].id != id);
        assert forall|j: int| 0 <= j < i - 1 implies (#[trigger] rest[j]).id != id by {
            assert(bars[j + 1].id != id);
        }
        first_of_its_id(rest, id, i - 1);
    }
}

/// What an update says of a bar is what the bar then has, the rest of that bar is as it was, and so is
/// every other bar.
pub proof fn an_update_changes_its_bar_and_no_other(
    old_hud: Hud,
    hud: Hud,
    id: u128,
    operation: Operation,
    ticks: u64,
    i: int,
    other: int,
)
    requires
        keeps(old_hud, hud, (Packet::BossEvent { id, operation }), ticks),
        operation is UpdateProgress || operation is UpdateName || operation is UpdateStyle
            || operation is UpdateProperties,
        0 <= i < old_hud.bars@.len(),
        old_hud.bars@[i].id == id,
        forall|j: int| 0 <= j < i ==> (#[trigger] old_hud.bars@[j]).id != id,
        0 <= other < old_hud.bars@.len(),
        other != i,
    ensures
        hud.bars@.len() == old_hud.bars@.len(),
        hud.bars@[other] == old_hud.bars@[other],
        ({
            let was = old_hud.bars@[i];
            let now = hud.bars@[i];
            &&& now.id == was.id
            &&& now.progress == match operation {
                Operation::UpdateProgress(progress) => progress,
                _ => was.progress,
            }
            &&& now.name == match operation {
                Operation::UpdateName(name) => name,
                _ => was.name,
            }
            &&& now.color == match operation {
                Operation::UpdateStyle { color, overlay } => color,
                _ => was.color,
            }
            &&& now.overlay == match operation {
                Operation::UpdateStyle { color, overlay } => overlay,
                _ => was.overlay,
            }
        }),
        hud.teams == old_hud.teams && hud.scores == old_hud.scores && hud.objectives
            == old_hud.objectives && hud.listed == old_hud.listed,
{
    first_of_its_id(old_hud.bars@, id, i);
}

/// The same of the only bar there is.
pub proof fn a_bars_progress_is_what_was_said_last(
    old_hud: Hud,
    hud: Hud,
    id: u128,
    progress: u32,
    ticks: u64,
    i: int,
)
    requires
        keeps(
            old_hud,
            hud,
            (Packet::BossEvent { id, operation: Operation::UpdateProgress(progress) }),
            ticks,
        ),
        0 <= i < old_hud.bars@.len(),
        old_hud.bars@[i].id == id,
        forall|j: int| 0 <= j < i ==> (#[trigger] old_hud.bars@[j]).id != id,
    ensures
        hud.bars@.len() == old_hud.bars@.len(),
        hud.bars@[i].progress == progress,
        hud.bars@[i].name == old_hud.bars@[i].name,
        hud.bars@[i].color == old_hud.bars@[i].color,
        hud.bars@[i].overlay == old_hud.bars@[i].overlay,
{
    first_of_its_id(old_hud.bars@, id, i);
}

/// An added bar is the last one, as it was added, in the place of one of its id; a removed one is
/// gone; and the other bars stay.
pub proof fn a_bar_is_added_and_removed(
    old_hud: Hud,
    hud: Hud,
    id: u128,
    operation: Operation,
    ticks: u64,
    other: Bar,
)
    requires
        keeps(old_hud, hud, (Packet::BossEvent { id, operation }), ticks),
        operation is Add || operation is Remove,
    ensures
        operation matches Operation::Add { name, progress, color, overlay } ==> {
            &&& hud.bars@.len() > 0
            &&& hud.bars@.last() == Bar { id, name, progress, color, overlay }
        },
        operation is Remove ==> (hud.bars@.contains(other) ==> other.id != id),
        other.id != id ==> (hud.bars@.contains(other) <==> old_hud.bars@.contains(other)),
{
    without_bar_keeps_the_others(old_hud.bars@, id, other);
    let less = without_bar(old_hud.bars@, id);
    if operation is Add {
        if hud.bars@.contains(other) {
            let i = hud.bars@.index_of(other);
            if i < less.len() {
                assert(less[i] == other);
            }
        }
        if less.contains(other) {
            let i = less.index_of(other);
            assert(hud.bars@[i] == other);
        }
    }
}

/// A score that is set reads back, a negative one too, and no other score changes.
pub proof fn a_score_reads_back(
    old_hud: Hud,
    hud: Hud,
    owner: String,
    objective: String,
    score: u32,
    display: Option<Json>,
    number_format: Option<NumberFormat>,
    ticks: u64,
    other: (Seq<char>, Seq<char>),
)
    requires
        keeps(
            old_hud,
            hud,
            (Packet::SetScore { owner, objective, score, display, number_format }),
            ticks,
        ),
    ensures
        hud.scores@.dom().contains((owner@, objective@)),
        ({
            let set = hud.scores@[(owner@, objective@)];
            &&& set.display == display
            &&& set.number_format == number_format
            &&& score <= 0x7fff_ffff ==> set.value == score
            &&& score > 0x7fff_ffff ==> set.value == score - 0x1_0000_0000
        }),
        other != (owner@, objective@) ==> hud.scores@.dom().contains(other)
            == old_hud.scores@.dom().contains(other) && (old_hud.scores@.dom().contains(other)
            ==> hud.scores@[other] == old_hud.scores@[other]),
        hud.objectives == old_hud.objectives && hud.displayed == old_hud.displayed && hud.teams
            == old_hud.teams && hud.members == old_hud.members,
{
}

/// A score that is reset is gone, with every one its owner has where no objective is named, and no
/// other is.
pub proof fn a_reset_score_is_gone(
    old_hud: Hud,
    hud: Hud,
    owner: String,
    objective: Option<String>,
    ticks: u64,
    key: (Seq<char>, Seq<char>),
)
    requires
        keeps(old_hud, hud, (Packet::ResetScore { owner, objective }), ticks),
    ensures
        hud.scores@.dom().contains(key) <==> old_hud.scores@.dom().contains(key) && !(key.0
            == owner@ && (objective matches Some(named) ==> key.1 == named@)),
        hud.scores@.dom().contains(key) ==> hud.scores@[key] == old_hud.scores@[key],
{
}

/// An objective that is set reads back under its name, and the others stay.
pub proof fn an_objective_reads_back(
    old_hud: Hud,
    hud: Hud,
    name: String,
    objective: Objective,
    ticks: u64,
    other: Seq<char>,
)
    requires
        keeps(
            old_hud,
            hud,
            (Packet::SetObjective { name, objective: Some(objective) }),
            ticks,
        ),
    ensures
        hud.objectives@.dom().contains(name@),
        hud.objectives@[name@] == objective,
        other != name@ ==> hud.objectives@.dom().contains(other)
            == old_hud.objectives@.dom().contains(other) && (old_hud.objectives@.dom().contains(other)
            ==> hud.objectives@[other] == old_hud.objectives@[other]),
        hud.scores == old_hud.scores && hud.displayed == old_hud.displayed,
{
}

/// What is displayed in a slot is what was put there last, nothing where an empty name was, and the
/// other slots are left alone. The list is slot 0, the sidebar 1, below names 2.
pub proof fn a_slot_shows_what_was_put_in_it(
    old_hud: Hud,
    hud: Hud,
    slot: usize,
    name: String,
    ticks: u64,
    other: int,
    me: Seq<char>,
)
    requires
        old_hud.valid(),
        keeps(old_hud, hud, (Packet::SetDisplayObjective { slot, name }), ticks),
        slot < 19,
        0 <= other < 19,
        other != slot,
    ensures
        hud.valid(),
        slot_names(hud.displayed@)[slot as int] == if name@.len() == 0 {
            None
        } else {
            Some(name@)
        },
        slot_names(hud.displayed@)[other] == slot_names(old_hud.displayed@)[other],
        slot == 0 && name@.len() > 0 ==> hud.shown_in(Slot::List, me) == Some(name@),
        slot == 2 && name@.len() > 0 ==> hud.shown_in(Slot::BelowName, me) == Some(name@),
        slot == 1 && name@.len() > 0 && hud.team_of_name(me) is None ==> hud.shown_in(
            Slot::Sidebar,
            me,
        ) == Some(name@),
{
    assert(slot_names(hud.displayed@).len() == hud.displayed@.len());
    assert(slot_names(old_hud.displayed@).len() == old_hud.displayed@.len());
}

/// The sidebar of a team's colour is drawn in place of the plain one for who is on that team, and for
/// the sidebar alone.
pub proof fn a_team_sees_its_own_sidebar(hud: Hud, me: Seq<char>, team: Team, n: nat)
    requires
        hud.team_of_name(me) == Some(team),
        colour_number(team.color) == Some(n),
        slot_names(hud.displayed@)[3 + n as int] is Some,
    ensures
        hud.shown_in(Slot::Sidebar, me) == slot_names(hud.displayed@)[3 + n as int],
        hud.shown_in(Slot::List, me) == slot_names(hud.displayed@)[0],
        hud.shown_in(Slot::BelowName, me) == slot_names(hud.displayed@)[2],
{
}

/// What a line of a board says: the score it has, the name the entry is shown by or its owner's,
/// between its team's prefix and suffix on the sidebar alone.
pub proof fn a_line_says_its_score(
    hud: Hud,
    slot: Slot,
    objective: Objective,
    owner: Seq<char>,
    score: Score,
)
    ensures
        ({
            let line = hud.line_of(slot, objective, owner, score);
            let name = match score.display {
                Some(display) => display@,
                None => Doc::Text(owner),
            };
            &&& line.score == score.value
            &&& slot != Slot::Sidebar ==> line.name == name
            &&& hud.team_of_name(owner) is None ==> line.name == name
            &&& slot == Slot::Sidebar ==> (hud.team_of_name(owner) matches Some(team) ==> line.name
                == framed_name(StyleView::of_team(team.color), team.prefix@, name, team.suffix@))
        }),
{
}

/// What stands beside a score: what the entry's own format makes of it, or the objective's where it
/// has none, and the number itself where neither says anything.
pub proof fn the_entrys_own_format_wins(score: Score, objective: Objective, style: StyleView)
    ensures
        score.number_format matches Some(NumberFormat::Blank) ==> formatted_of(
            score,
            objective,
            style,
        ) == Doc::Text(Seq::empty()),
        score.number_format matches Some(NumberFormat::Fixed(value)) ==> formatted_of(
            score,
            objective,
            style,
        ) == value@,
        score.number_format matches Some(NumberFormat::Styled(own)) ==> formatted_of(
            score,
            objective,
            style,
        ) == styled_text(crate::words::dec(score.value as int), own@),
        score.number_format is None && objective.number_format is None ==> formatted_of(
            score,
            objective,
            style,
        ) == styled_text(crate::words::dec(score.value as int), style),
        score.number_format is None ==> (objective.number_format matches Some(NumberFormat::Fixed(value))
            ==> formatted_of(score, objective, style) == value@),
        score.number_format is None ==> (objective.number_format matches Some(NumberFormat::Blank)
            ==> formatted_of(score, objective, style) == Doc::Text(Seq::empty())),
        score.number_format is None ==> (objective.number_format matches Some(
            NumberFormat::Styled(own),
        ) ==> formatted_of(score, objective, style) == styled_text(
            crate::words::dec(score.value as int),
            own@,
        )),
{
}

/// A number is red on the sidebar, yellow in the list, and plain below a name.
pub proof fn a_number_has_its_slots_colour()
    ensures
        slot_style(Slot::Sidebar).color == Some("red"@),
        slot_style(Slot::List).color == Some("yellow"@),
        slot_style(Slot::BelowName).color is None,
{
}

/// Of two entries the one with the higher score comes first, and of two with the same the one whose
/// owner comes first in the alphabet.
pub proof fn the_higher_score_comes_first(
    a: ((Seq<char>, Seq<char>), Score),
    b: ((Seq<char>, Seq<char>), Score),
)
    ensures
        a.1.value > b.1.value ==> outranks(a, b) && !outranks(b, a),
        a.1.value == b.1.value ==> (outranks(a, b) <==> before(
            lowercase_of(a.0.0),
            lowercase_of(b.0.0),
        )),
        SIDEBAR_LINES == 15,
{
}

/// Adding a team puts its names on it, and what it looks like is what it was added with.
pub proof fn adding_a_team_enlists_its_names(
    old_hud: Hud,
    hud: Hud,
    name: String,
    team: Team,
    members: Vec<String>,
    ticks: u64,
    i: int,
    other: Seq<char>,
)
    requires
        keeps(
            old_hud,
            hud,
            (Packet::SetPlayerTeam { name, method: TeamMethod::Add(team, members) }),
            ticks,
        ),
        0 <= i < members@.len(),
        forall|k: int| 0 <= k < members@.len() ==> (#[trigger] members@[k])@ != other,
    ensures
        hud.teams@[name@] == team,
        hud.team_of_name(members@[i]@) == Some(team),
        hud.members@.dom().contains(other) == old_hud.members@.dom().contains(other),
        old_hud.members@.dom().contains(other) ==> hud.members@[other] == old_hud.members@[other],
{
    enlisting_moves(old_hud.members@, members@, name, i);
    enlisting_leaves(old_hud.members@, members@, name, other);
}

proof fn enlisting_leaves(
    members: Map<Seq<char>, String>,
    list: Seq<String>,
    team: String,
    other: Seq<char>,
)
    requires
        forall|k: int| 0 <= k < list.len() ==> (#[trigger] list[k])@ != other,
    ensures
        enlisted(members, list, team).dom().contains(other) == members.dom().contains(other),
        members.dom().contains(other) ==> enlisted(members, list, team)[other] == members[other],
    decreases list.len(),
{
    if list.len() > 0 {
        assert forall|k: int| 0 <= k < list.drop_last().len() implies (#[trigger] list.drop_last()[k])@
            != other by {
            assert(list[k]@ != other);
        }
        enlisting_leaves(members, list.drop_last(), team, other);
        assert(list[list.len() - 1]@ != other);
    }
}

/// Leaving a team takes off it who was on it, and nobody who is on another.
pub proof fn leaving_takes_a_name_off_its_own_team(
    old_hud: Hud,
    hud: Hud,
    name: String,
    members: Vec<String>,
    ticks: u64,
    member: Seq<char>,
)
    requires
        keeps(
            old_hud,
            hud,
            (Packet::SetPlayerTeam { name, method: TeamMethod::Leave(members) }),
            ticks,
        ),
    ensures
        (exists|i: int| 0 <= i < members@.len() && (#[trigger] members@[i])@ == member)
            && old_hud.members@.dom().contains(member) && old_hud.members@[member]@ == name@
            ==> !hud.members@.dom().contains(member),
        old_hud.members@.dom().contains(member) && old_hud.members@[member]@ != name@
            ==> hud.members@.dom().contains(member) && hud.members@[member]
            == old_hud.members@[member],
        !old_hud.members@.dom().contains(member) ==> !hud.members@.dom().contains(member),
        hud.teams == old_hud.teams,
{
    discharging(old_hud.members@, members@, name@, member);
}

proof fn discharging(
    members: Map<Seq<char>, String>,
    list: Seq<String>,
    team: Seq<char>,
    member: Seq<char>,
)
    ensures
        discharged(members, list, team).dom().contains(member) ==> members.dom().contains(member)
            && discharged(members, list, team)[member] == members[member],
        members.dom().contains(member) && members[member]@ != team ==> discharged(
            members,
            list,
            team,
        ).dom().contains(member),
        (exists|i: int| 0 <= i < list.len() && (#[trigger] list[i])@ == member)
            && members.dom().contains(member) && members[member]@ == team ==> !discharged(
            members,
            list,
            team,
        ).dom().contains(member),
    decreases list.len(),
{
    if list.len() > 0 {
        let rest = list.drop_last();
        discharging(members, rest, team, member);
        if exists|i: int| 0 <= i < list.len() && (#[trigger] list[i])@ == member {
            let i = choose|i: int| 0 <= i < list.len() && (#[trigger] list[i])@ == member;
            if i < rest.len() {
                assert(rest[i]@ == member);
            }
        }
    }
}

proof fn listing(listed: Map<u128, ()>, list: Seq<(u128, bool)>, i: int)
    requires
        0 <= i < list.len(),
        forall|j: int| i < j < list.len() ==> (#[trigger] list[j]).0 != list[i].0,
    ensures
        listed_after(listed, list).dom().contains(list[i].0) == list[i].1,
    decreases list.len(),
{
    if i < list.len() - 1 {
        let rest = list.drop_last();
        assert forall|j: int| i < j < rest.len() implies (#[trigger] rest[j]).0 != rest[i].0 by {
            assert(list[j].0 != list[i].0);
        }
        listing(listed, rest, i);
        assert(list[list.len() - 1].0 != list[i].0);
    }
}

proof fn listing_leaves(listed: Map<u128, ()>, list: Seq<(u128, bool)>, other: u128)
    requires
        forall|j: int| 0 <= j < list.len() ==> (#[trigger] list[j]).0 != other,
    ensures
        listed_after(listed, list).dom().contains(other) == listed.dom().contains(other),
    decreases list.len(),
{
    if list.len() > 0 {
        let rest = list.drop_last();
        assert forall|j: int| 0 <= j < rest.len() implies (#[trigger] rest[j]).0 != other by {
            assert(list[j].0 != other);
        }
        listing_leaves(listed, rest, other);
        assert(list[list.len() - 1].0 != other);
    }
}

proof fn unlisting(listed: Map<u128, ()>, list: Seq<u128>, who: u128)
    ensures
        unlisted(listed, list).dom().contains(who) <==> listed.dom().contains(who)
            && !list.contains(who),
    decreases list.len(),
{
    if list.len() > 0 {
        let rest = list.drop_last();
        unlisting(listed, rest, who);
        if list.contains(who) {
            let i = list.index_of(who);
            if i < rest.len() {
                assert(rest[i] == who);
            }
        }
        if rest.contains(who) {
            let i = rest.index_of(who);
            assert(list[i] == who);
        }
        assert(list.contains(list[list.len() - 1]));
    }
}

/// Who the tab list shows is who was last said to be listed and has not been removed since.
pub proof fn the_tab_list_shows_who_is_listed(
    old_hud: Hud,
    hud: Hud,
    list: Vec<(u128, bool)>,
    ticks: u64,
    i: int,
    other: u128,
)
    requires
        keeps(old_hud, hud, (Packet::PlayerInfoUpdate { listed: list }), ticks),
        0 <= i < list@.len(),
        forall|j: int| i < j < list@.len() ==> (#[trigger] list@[j]).0 != list@[i].0,
        forall|j: int| 0 <= j < list@.len() ==> (#[trigger] list@[j]).0 != other,
    ensures
        hud.listed@.dom().contains(list@[i].0) == list@[i].1,
        hud.listed@.dom().contains(other) == old_hud.listed@.dom().contains(other),
{
    listing(old_hud.listed@, list@, i);
    listing_leaves(old_hud.listed@, list@, other);
}

/// A player who is removed is listed no more, and everybody else as before.
pub proof fn a_removed_player_is_listed_no_more(
    old_hud: Hud,
    hud: Hud,
    players: Vec<u128>,
    ticks: u64,
    who: u128,
)
    requires
        keeps(old_hud, hud, (Packet::PlayerInfoRemove { players }), ticks),
    ensures
        hud.listed@.dom().contains(who) <==> old_hud.listed@.dom().contains(who)
            && !players@.contains(who),
{
    unlisting(old_hud.listed@, players@, who);
}

/// The weather is what the game said last: rain begins from none and ends from full, a level is taken
/// as it is sent, and winning shows the credits.
pub proof fn the_weather_is_what_was_said_last(old_hud: Hud, hud: Hud, event: GameEvent, ticks: u64)
    requires
        keeps(old_hud, hud, (Packet::GameEvent(event)), ticks),
    ensures
        hud.rain == match event {
            GameEvent::StartRaining => 0u32,
            GameEvent::StopRaining => 0x3f80_0000u32,
            GameEvent::RainLevelChange(level) => level,
            _ => old_hud.rain,
        },
        hud.thunder == match event {
            GameEvent::ThunderLevelChange(level) => level,
            _ => old_hud.thunder,
        },
        hud.credits == (old_hud.credits || event is WinGame),
{
}

/// Who rides what is what was said of the vehicle last: a vehicle with nobody on it carries nobody.
pub proof fn a_vehicle_carries_who_was_put_on_it(
    old_hud: Hud,
    hud: Hud,
    vehicle: i32,
    passengers: Vec<i32>,
    ticks: u64,
    rider: i32,
    other: i32,
)
    requires
        keeps(old_hud, hud, (Packet::SetPassengers { vehicle, passengers }), ticks),
        other != vehicle,
    ensures
        passengers@.contains(rider) ==> hud.rides_on(rider, Some(vehicle)),
        !passengers@.contains(rider) ==> !hud.rides_on(rider, Some(vehicle)),
        hud.rides_on(rider, Some(other)) == old_hud.rides_on(rider, Some(other)),
{
}

/// A group comes free as many ticks from now as its cooldown lasts; a cooldown of none ends it.
pub proof fn a_cooldown_ends_when_it_was_said_to(
    old_hud: Hud,
    hud: Hud,
    group: String,
    duration: u32,
    ticks: u64,
    other: Seq<char>,
)
    requires
        keeps(old_hud, hud, (Packet::Cooldown { group, duration }), ticks),
        ticks + duration <= u64::MAX,
        other != group@,
    ensures
        duration == 0 ==> !hud.cooldowns@.dom().contains(group@),
        duration > 0 ==> hud.cooldowns@.dom().contains(group@) && hud.cooldowns@[group@] == ticks
            + duration,
        hud.cooldowns@.dom().contains(other) == old_hud.cooldowns@.dom().contains(other),
        old_hud.cooldowns@.dom().contains(other) ==> hud.cooldowns@[other]
            == old_hud.cooldowns@[other],
{
}

proof fn clocked(clocks: Map<u32, Clock>, list: Seq<(u32, u64, u32)>, ticks: u64, i: int)
    requires
        0 <= i < list.len(),
        forall|j: int| i < j < list.len() ==> (#[trigger] list[j]).0 != list[i].0,
    ensures
        clocks_after(clocks, list, ticks).dom().contains(list[i].0),
        clocks_after(clocks, list, ticks)[list[i].0] == (Clock {
            total_ticks: list[i].1,
            rate: list[i].2,
            at_tick: ticks,
        }),
    decreases list.len(),
{
    if i < list.len() - 1 {
        let rest = list.drop_last();
        assert forall|j: int| i < j < rest.len() implies (#[trigger] rest[j]).0 != rest[i].0 by {
            assert(list[j].0 != list[i].0);
        }
        clocked(clocks, rest, ticks, i);
        assert(list[list.len() - 1].0 != list[i].0);
    }
}

/// A clock stands where it was last set, at the rate it was set to, from the tick it was set on.
pub proof fn a_clock_stands_where_it_was_set(
    old_hud: Hud,
    hud: Hud,
    clocks: Vec<(u32, u64, u32)>,
    ticks: u64,
    i: int,
)
    requires
        keeps(old_hud, hud, (Packet::SetTime { clocks }), ticks),
        0 <= i < clocks@.len(),
        forall|j: int| i < j < clocks@.len() ==> (#[trigger] clocks@[j]).0 != clocks@[i].0,
    ensures
        hud.clocks@.dom().contains(clocks@[i].0),
        hud.clocks@[clocks@[i].0].total_ticks == clocks@[i].1,
        hud.clocks@[clocks@[i].0].rate == clocks@[i].2,
        hud.clocks@[clocks@[i].0].at_tick == ticks,
{
    clocked(old_hud.clocks@, clocks@, ticks, i);
}

/// A respawn is dry, with nobody riding anything, no cooldown, no editor and no credits; the
/// scoreboard, the bars and the player list stay.
pub proof fn a_respawn_keeps_the_board(old_hud: Hud, hud: Hud, dimension: Dimension, ticks: u64)
    requires
        keeps(old_hud, hud, (Packet::Respawn { dimension }), ticks),
    ensures
        hud.rain == 0 && hud.thunder == 0 && !hud.credits,
        hud.sign_editor is None && hud.command_editor is None,
        hud.dimension == Some(dimension),
        forall|rider: i32, vehicle: i32| !#[trigger] hud.rides_on(rider, Some(vehicle)),
        forall|group: Seq<char>| !#[trigger] hud.cooldowns@.dom().contains(group),
        hud.scores == old_hud.scores && hud.objectives == old_hud.objectives && hud.displayed
            == old_hud.displayed && hud.teams == old_hud.teams && hud.members == old_hud.members
            && hud.bars == old_hud.bars && hud.listed == old_hud.listed && hud.logins
            == old_hud.logins && hud.dialog == old_hud.dialog,
{
}

/// A login says who the player is, where, and whether chat is to be signed, and is counted.
pub proof fn a_login_says_who_and_where(
    old_hud: Hud,
    hud: Hud,
    player_id: i32,
    secure_chat: bool,
    dimension: Dimension,
    ticks: u64,
)
    requires
        keeps(old_hud, hud, (Packet::Login { player_id, secure_chat, dimension }), ticks),
        old_hud.logins < u64::MAX,
    ensures
        hud.player_id == Some(player_id),
        hud.signed_chat_only == secure_chat,
        hud.dimension == Some(dimension),
        hud.logins == old_hud.logins + 1,
        hud.permission_level == 0,
        hud.dialog is None,
        hud.bars@.len() == 0,
{
}

/// The operator level is the player's own alone, and counts from event 24.
pub proof fn the_operator_level_is_the_players_own(
    old_hud: Hud,
    hud: Hud,
    entity_id: i32,
    event_id: u8,
    ticks: u64,
    effects: Seq<Effect>,
)
    requires
        applied(old_hud, hud, (Incoming::EntityEvent { entity_id, event_id }), ticks, effects),
    ensures
        old_hud.player_id == Some(entity_id) && 24 <= event_id <= 28 ==> hud.permission_level
            + 24 == event_id,
        !(old_hud.player_id == Some(entity_id) && 24 <= event_id <= 28) ==> hud == old_hud,
{
}

/// What the server draws goes to the feed it is drawn on, with its words and its pieces.
pub proof fn what_is_drawn_goes_to_its_feed(
    old_hud: Hud,
    hud: Hud,
    incoming: Incoming,
    line: Drawn,
    ticks: u64,
    effects: Seq<Effect>,
)
    requires
        applied(old_hud, hud, incoming, ticks, effects),
        incoming == Incoming::ActionBar(line) || incoming == Incoming::Title(line) || incoming
            == Incoming::Subtitle(line),
    ensures
        hud == old_hud,
        effects.len() == 1,
        effects[0] matches Effect::Fold(fold) && {
            &&& fold.text@ == line.text@
            &&& fold.component@ == line.component@
            &&& feeds::doc_of(fold.segments) == Some(line.segments@)
            &&& feeds::doc_of(fold.data) is None
            &&& incoming is ActionBar ==> fold.kind@ == "actionBar"@ && fold.source@ == "actionbar"@
            &&& incoming is Title ==> fold.kind@ == "title"@ && fold.source@ == "title"@
            &&& incoming is Subtitle ==> fold.kind@ == "title"@ && fold.source@ == "subtitle"@
        },
{
}

/// A dialog is on the screen from when it is shown until it is cleared.
pub proof fn a_dialog_is_up_until_it_is_cleared(
    old_hud: Hud,
    hud: Hud,
    incoming: Incoming,
    ticks: u64,
    effects: Seq<Effect>,
)
    requires
        applied(old_hud, hud, incoming, ticks, effects),
        incoming is ShowDialog || incoming is ClearDialog,
    ensures
        incoming is ClearDialog ==> hud.dialog is None,
        incoming matches Incoming::ShowDialog { definition, sliders } ==> hud.dialog matches Some(open)
            && open.definition@ == match definition {
            Some(definition) => definition@,
            None => Doc::Null,
        },
        incoming is ClearDialog ==> effects.len() == 1 && (effects[0] matches Effect::Fold(line)
            && line.kind@ == "dialog"@ && line.source@ == "closed"@),
        incoming matches Incoming::ShowDialog { definition: Some(shown), sliders } ==> effects.len()
            == 1 && (effects[0] matches Effect::Fold(line) && line.kind@ == "dialog"@ && line.source@
            == "dialog"@ && feeds::doc_of(line.data) == Some(shown@)),
{
}

/// A block entity of a chunk lies in that chunk, at the place and height it was sent with.
pub proof fn a_block_entity_lies_in_its_chunk(x: i32, z: i32, packed_xz: u8, y: i16)
    requires
        in_reach(x, z),
    ensures
        ({
            let at = chunk_place(x, z, packed_xz, y);
            &&& at.x == 16 * x + packed_xz / 16
            &&& at.z == 16 * z + packed_xz % 16
            &&& at.y == y
            &&& 16 * x <= at.x < 16 * x + 16
            &&& 16 * z <= at.z < 16 * z + 16
        }),
{
}

/// A sign's editor opens on the place and the side it was opened for, with what that side reads.
pub proof fn a_sign_opens_on_its_own_side(
    old_hud: Hud,
    hud: Hud,
    at: BlockPos,
    front: bool,
    block: String,
    ticks: u64,
    effects: Seq<Effect>,
    i: int,
)
    requires
        applied(old_hud, hud, (Incoming::OpenSign { at, front, block }), ticks, effects),
        0 <= i < 4,
    ensures
        hud.sign_editor matches Some(editor) && {
            &&& editor.at == at
            &&& editor.front == front
            &&& editor.hanging == ends(block@, "hanging_sign"@)
            &&& !old_hud.block_entities@.dom().contains(at) ==> texts(editor.lines@)[i].len() == 0
            &&& old_hud.block_entities@.dom().contains(at) && old_hud.block_entities@[at].fits(
                block@,
            ) ==> texts(editor.lines@)[i] == face_lines(
                old_hud.block_entities@[at].data@,
                if front {
                    "front_text"@
                } else {
                    "back_text"@
                },
            )[i].words()
        },
{
}

/// A chunk that is forgotten or arrives anew keeps nothing it had before, and touches no other chunk.
pub proof fn a_forgotten_chunk_touches_no_other(
    old_hud: Hud,
    hud: Hud,
    x: i32,
    z: i32,
    ticks: u64,
    effects: Seq<Effect>,
    at: BlockPos,
)
    requires
        applied(old_hud, hud, (Incoming::ForgetChunk { x, z }), ticks, effects),
    ensures
        crate::editors::in_chunk(at, x, z) ==> !hud.block_entities@.dom().contains(at),
        !crate::editors::in_chunk(at, x, z) ==> hud.block_entities@.dom().contains(at)
            == old_hud.block_entities@.dom().contains(at) && (old_hud.block_entities@.dom().contains(at)
            ==> hud.block_entities@[at] == old_hud.block_entities@[at]),
{
}

/// What follows outside the screen: an answer to a completion that was asked for, the way back to
/// configuration, and an arrival at every login but the first.
pub proof fn what_follows_from_a_packet(old_hud: Hud, hud: Hud, packet: Packet, ticks: u64, effects: Seq<Effect>)
    requires
        applied(old_hud, hud, (Incoming::Kept(packet)), ticks, effects),
        old_hud.logins < u64::MAX,
    ensures
        packet matches Packet::CommandSuggestions { id } ==> (old_hud.completions@.dom().contains(id)
            ==> effects == seq![Effect::Answer(id)]) && (!old_hud.completions@.dom().contains(id)
            ==> effects.len() == 0) && !hud.completions@.dom().contains(id),
        packet is StartConfiguration ==> effects == seq![Effect::Reconfiguring] && hud == old_hud,
        packet is Login && old_hud.logins == 0 ==> effects.len() == 0,
        packet is Login && old_hud.logins > 0 ==> effects == seq![Effect::Arrived],
        packet is SetScore || packet is BossEvent || packet is Cooldown ==> effects.len() == 0,
        packet matches Packet::Commands(commands) ==> hud.commands == Some(commands),
{
}

/// A chunk that arrives has the block entities it was sent with, each where it was sent for.
pub proof fn a_chunk_has_what_it_was_sent_with(
    kept: Map<BlockPos, BlockEntity>,
    x: i32,
    z: i32,
    entities: Seq<ChunkEntity>,
    more: ChunkEntity,
    other: BlockPos,
)
    requires
        other != chunk_place(x, z, more.packed_xz, more.y),
    ensures
        with_chunk(kept, x, z, Seq::empty()) == kept,
        ({
            let at = chunk_place(x, z, more.packed_xz, more.y);
            let after = with_chunk(kept, x, z, entities.push(more));
            &&& after.dom().contains(at) && after[at] == more.entity
            &&& after.dom().contains(other) == with_chunk(kept, x, z, entities).dom().contains(other)
        }),
{
    assert(entities.push(more).drop_last() =~= entities);
}

/// The data of a block entity is kept where it is, and fills the editor that is open on it and no other.
pub proof fn a_block_entity_fills_its_own_editor(
    old_hud: Hud,
    hud: Hud,
    at: BlockPos,
    entity: BlockEntity,
    conditional: bool,
    ticks: u64,
    effects: Seq<Effect>,
)
    requires
        applied(old_hud, hud, (Incoming::EntityData { at, entity, conditional }), ticks, effects),
    ensures
        hud.block_entities@.dom().contains(at) && hud.block_entities@[at] == entity,
        old_hud.command_editor is None ==> hud.command_editor is None,
        old_hud.command_editor matches Some(editor) ==> (editor.at != at ==> hud.command_editor
            == old_hud.command_editor) && (editor.at == at ==> (hud.command_editor matches Some(now)
            && now.loaded && now.at == at && now.conditional == conditional && (entity.data@.text_at(
            "Command"@,
        ) matches Some(command) ==> now.command@ == command))),
        hud.sign_editor == old_hud.sign_editor && hud.dialog == old_hud.dialog,
{
}

/// An owner is hidden from the sidebar where its name begins with a hash.
pub proof fn an_owner_is_hidden_by_a_hash(owner: Seq<char>)
    ensures
        hidden_owner(owner) <==> owner.len() > 0 && owner[0] == '#',
{
    reveal_strlit("#");
    assert("#"@.len() == 1);
    if owner.len() > 0 {
        assert(owner.subrange(0, 1)[0] == owner[0]);
        if owner[0] == '#' {
            assert(owner.subrange(0, 1) =~= "#"@);
        }
    }
}

/// A name is on the team it was put on, while the client knows that team.
pub proof fn a_name_is_on_the_team_it_was_put_on(hud: Hud, member: Seq<char>)
    ensures
        !hud.members@.dom().contains(member) ==> hud.team_of_name(member) is None,
        hud.members@.dom().contains(member) && hud.teams@.dom().contains(hud.members@[member]@)
            ==> hud.team_of_name(member) == Some(hud.teams@[hud.members@[member]@]),
        hud.members@.dom().contains(member) && !hud.teams@.dom().contains(hud.members@[member]@)
            ==> hud.team_of_name(member) is None,
{
}

} // verus!
