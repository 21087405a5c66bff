//! Entities: which are in sight, which one a caller means, and what labels float over them.
//!
//! Distances are measured where the entities are kept. What comes here of one is a number that
//! orders as it does, the way it reads in a sentence, and whether it is within the range asked for.
use vstd::prelude::*;

use crate::calls::{Answer, AnswerView, Failure, FailureView};
use crate::json::{a_field_reads_back, an_empty_object_has_nothing, docs, Doc, Json, Number};
use crate::place::BlockPos;
use crate::tools::args::{given, integer, integer_of, plain, point, point_of};
use crate::tools::stacks::{needle, needle_of};
use crate::words::{
    bare, cat2, cat3, cat4, cat5, cat6, cat7, contains, dec, join, joined, lowercase, lowercase_of,
    occurs, same, signed, texts, trim, trimmed, wrapped_u32,
};

verus! {

/// Enough to tell a misspelling from an empty world without printing the whole level.
pub const MAX_LISTED: usize = 5;

/// Ticks between swings. The attack cooldown lands two hits in one tick as one, and this is the gap
/// the other kinds of bot leave, so a mob takes the same beating from any of them.
pub const INTERVAL_TICKS: u32 = 10;

/// An entity as the client keeps it.
pub struct Kept {
    pub handle: u64,
    /// Whether it is in the world the bot is in.
    pub here: bool,
    pub id: Option<i32>,
    /// The full name of what it is.
    pub kind: String,
    pub custom: Option<Json>,
    /// The name the player list has for it.
    pub profile: Option<String>,
    pub player: bool,
    pub mob: bool,
    /// The text of a text display.
    pub text: Option<Json>,
    pub display: bool,
    pub invisible: bool,
    pub name_visible: bool,
    pub living: bool,
    pub dead: bool,
    pub stand: bool,
    pub marker: bool,
    pub minecart: bool,
    pub boat: bool,
    pub interaction: bool,
    pub at: BlockPos,
    /// A number that orders as heights do.
    pub height: u64,
    pub distance: Distance,
    /// What stands under it were it a label, by handle, each with a number that orders as the
    /// distance from it does.
    pub under: Vec<(u64, u64)>,
    /// What an item display holds up, or what a block display draws; null for every other entity.
    pub item: Json,
    pub block: Json,
}

/// How far away something is: a number that orders as distances do, the distance with one decimal
/// as a document and as a sentence have it, and whether it is within the range asked for.
pub struct Distance {
    pub order: u32,
    pub number: Number,
    pub text: String,
    pub in_range: bool,
}

/// An entity as the client sees it, at the moment it was looked at.
pub struct Seen {
    pub handle: u64,
    pub id: Option<i32>,
    pub kind: String,
    /// The name a server gave it, else a player's name, else what it is.
    pub label: String,
    pub custom: Option<Json>,
    /// What it says, when it is text floating in the world rather than something to click.
    pub says: Option<Json>,
    pub at: BlockPos,
    pub height: u64,
    pub distance: Distance,
    pub under: Vec<(u64, u64)>,
    pub player: bool,
    pub mob: bool,
    pub pickable: bool,
    pub display: bool,
    pub item: Json,
    pub block: Json,
}

pub open spec fn doc_of(value: Option<Json>) -> Option<Doc> {
    match value {
        Some(value) => Some(value@),
        None => None,
    }
}

fn copied(value: &Option<Json>) -> (r: Option<Json>)
    ensures
        doc_of(r) == doc_of(*value),
{
    match value {
        Some(value) => Some(value.copy()),
        None => None,
    }
}

/// The name a server gave an entity, else a player's name, else what it is.
pub open spec fn label_of(kept: Kept) -> Seq<char> {
    match kept.custom {
        Some(custom) => custom@.words(),
        None => match kept.profile {
            Some(name) => if kept.player {
                name@
            } else {
                bare(kept.kind@)
            },
            None => bare(kept.kind@),
        },
    }
}

/// What an entity says: the text of a text display, or the name of an armor stand that is only there
/// to show it.
pub open spec fn says_of(kept: Kept) -> Option<Doc> {
    match kept.text {
        Some(text) => Some(text@),
        None => if kept.stand && kept.invisible && kept.name_visible {
            doc_of(kept.custom)
        } else {
            None
        },
    }
}

/// What the game lets a player's crosshair land on.
pub open spec fn pickable_of(kept: Kept) -> bool {
    kept.interaction || (kept.minecart && !kept.dead) || kept.boat || (kept.living && !kept.dead
        && !kept.marker)
}

/// Whether an entity was seen as it is kept.
pub open spec fn sees(seen: Seen, kept: Kept) -> bool {
    &&& seen.handle == kept.handle
    &&& seen.id == kept.id
    &&& seen.kind@ == bare(kept.kind@)
    &&& seen.label@ == label_of(kept)
    &&& doc_of(seen.custom) == doc_of(kept.custom)
    &&& doc_of(seen.says) == says_of(kept)
    &&& seen.at == kept.at
    &&& seen.distance.order == kept.distance.order
    &&& seen.distance.number == kept.distance.number
    &&& seen.distance.text@ == kept.distance.text@
    &&& seen.distance.in_range == kept.distance.in_range
    &&& seen.height == kept.height
    &&& seen.under@ == kept.under@
    &&& seen.player == kept.player
    &&& seen.mob == kept.mob
    &&& seen.pickable == pickable_of(kept)
    &&& seen.display == kept.display
    &&& seen.item@ == kept.item@
    &&& seen.block@ == kept.block@
}

fn look(kept: &Kept) -> (r: Seen)
    ensures
        sees(r, *kept),
{
    let kind = plain(kept.kind.as_str()).to_owned();
    let label = match &kept.custom {
        Some(custom) => custom.words(),
        None => match &kept.profile {
            Some(name) => if kept.player {
                name.clone()
            } else {
                kind.clone()
            },
            None => kind.clone(),
        },
    };
    let hologram: bool = kept.stand && kept.invisible && kept.name_visible;
    let says = match &kept.text {
        Some(text) => Some(text.copy()),
        None => if hologram {
            copied(&kept.custom)
        } else {
            None
        },
    };
    let mut under: Vec<(u64, u64)> = Vec::new();
    let mut i: usize = 0;
    while i < kept.under.len()
        invariant
            i <= kept.under@.len(),
            under@ == kept.under@.take(i as int),
        decreases kept.under@.len() - i,
    {
        under.push(kept.under[i]);
        i += 1;
        proof {
            assert(under@ =~= kept.under@.take(i as int));
        }
    }
    proof {
        assert(kept.under@.take(kept.under@.len() as int) =~= kept.under@);
    }
    Seen {
        handle: kept.handle,
        id: kept.id,
        kind,
        label,
        custom: copied(&kept.custom),
        says,
        at: kept.at,
        height: kept.height,
        distance: Distance {
            order: kept.distance.order,
            number: kept.distance.number,
            text: kept.distance.text.clone(),
            in_range: kept.distance.in_range,
        },
        under,
        player: kept.player,
        mob: kept.mob,
        pickable: kept.interaction || (kept.minecart && !kept.dead) || kept.boat || (kept.living
            && !kept.dead && !kept.marker),
        display: kept.display,
        item: kept.item.copy(),
        block: kept.block.copy(),
    }
}

/// Whether `order` has, each once, the places of the first `n` entities that are in the bot's world,
/// nearest first, and of two as far the one that is kept first.
pub open spec fn nearest_first_among(all: Seq<Kept>, order: Seq<int>, n: int) -> bool {
    &&& forall|i: int| #[trigger] order.contains(i) <==> 0 <= i < n && all[i].here
    &&& forall|a: int, b: int|
        0 <= a < b < order.len() ==> nearer(all, #[trigger] order[a], #[trigger] order[b])
}

pub open spec fn nearer(all: Seq<Kept>, a: int, b: int) -> bool {
    all[a].distance.order < all[b].distance.order || (all[a].distance.order
        == all[b].distance.order && a < b)
}

/// Whether a list is every other entity in the bot's world, nearest first.
pub open spec fn in_sight(all: Seq<Kept>, seen: Seq<Seen>) -> bool {
    exists|order: Seq<int>|
        {
            &&& #[trigger] nearest_first_among(all, order, all.len() as int)
            &&& seen.len() == order.len()
            &&& forall|k: int| 0 <= k < seen.len() ==> sees(#[trigger] seen[k], all[order[k]])
        }
}

/// Every other entity in the bot's world, nearest first.
pub fn nearby(all: &Vec<Kept>) -> (r: Vec<Seen>)
    ensures
        in_sight(all@, r@),
{
    let mut out: Vec<Seen> = Vec::new();
    let mut order: Vec<usize> = Vec::new();
    let mut i: usize = 0;
    while i < all.len()
        invariant
            i <= all@.len(),
            out@.len() == order@.len(),
            nearest_first_among(all@, crate::hud::ints(order@), i as int),
            forall|k: int| 0 <= k < order@.len() ==> (#[trigger] order@[k]) < i,
            forall|k: int| 0 <= k < out@.len() ==> sees(#[trigger] out@[k], all@[order@[k] as int]),
        decreases all@.len() - i,
    {
        if all[i].here {
            let mut p: usize = 0;
            while p < order.len() && all[order[p]].distance.order <= all[i].distance.order
                invariant
                    p <= order@.len(),
                    i < all@.len(),
                    forall|k: int| 0 <= k < order@.len() ==> (#[trigger] order@[k]) < i,
                    forall|k: int|
                        0 <= k < p ==> all@[#[trigger] order@[k] as int].distance.order
                            <= all@[i as int].distance.order,
                decreases order@.len() - p,
            {
                p += 1;
            }
            let ghost old_order = order@;
            let ghost old_out = out@;
            proof {
                place_in_order(all@, crate::hud::ints(order@), i as int, p as int);
            }
            order.insert(p, i);
            out.insert(p, look(&all[i]));
            proof {
                assert(crate::hud::ints(order@) =~= crate::hud::ints(old_order).insert(
                    p as int,
                    i as int,
                ));
                assert forall|k: int| 0 <= k < out@.len() implies sees(
                    #[trigger] out@[k],
                    all@[order@[k] as int],
                ) by {
                    if k < p {
                        assert(out@[k] == old_out[k] && order@[k] == old_order[k]);
                    } else if k > p {
                        assert(out@[k] == old_out[k - 1] && order@[k] == old_order[k - 1]);
                    }
                }
            }
        } else {
            proof {
                assert(nearest_first_among(all@, crate::hud::ints(order@), i as int + 1)) by {
                    let o = crate::hud::ints(order@);
                    assert forall|k: int| #[trigger] o.contains(k) <==> 0 <= k < i + 1
                        && all@[k].here by {
                        if 0 <= k < i + 1 && all@[k].here {
                            assert(k < i);
                        }
                    }
                }
            }
        }
        i += 1;
    }
    proof {
        let o = crate::hud::ints(order@);
        assert(nearest_first_among(all@, o, all@.len() as int));
        assert forall|k: int| 0 <= k < out@.len() implies sees(#[trigger] out@[k], all@[o[k]]) by {}
    }
    out
}

proof fn place_in_order(all: Seq<Kept>, order: Seq<int>, i: int, p: int)
    requires
        nearest_first_among(all, order, i),
        0 <= i < all.len(),
        all[i].here,
        0 <= p <= order.len(),
        forall|k: int| 0 <= k < order.len() ==> (#[trigger] order[k]) < i,
        forall|k: int|
            0 <= k < p ==> all[#[trigger] order[k]].distance.order <= all[i].distance.order,
        p < order.len() ==> all[order[p]].distance.order > all[i].distance.order,
    ensures
        nearest_first_among(all, order.insert(p, i), i + 1),
{
    let next = order.insert(p, i);
    assert forall|k: int| #[trigger] next.contains(k) <==> 0 <= k < i + 1 && all[k].here by {
        if next.contains(k) {
            let at = next.index_of(k);
            if at < p {
                assert(order[at] == k);
                assert(order.contains(k));
            } else if at > p {
                assert(order[at - 1] == k);
                assert(order.contains(k));
            }
        }
        if 0 <= k < i && all[k].here {
            assert(order.contains(k));
            let at = order.index_of(k);
            if at < p {
                assert(next[at] == k);
            } else {
                assert(next[at + 1] == k);
            }
        }
        if k == i {
            assert(next[p] == i);
        }
    }
    assert forall|a: int, b: int| 0 <= a < b < next.len() implies nearer(
        all,
        #[trigger] next[a],
        #[trigger] next[b],
    ) by {
        if a < p && b < p {
            assert(next[a] == order[a] && next[b] == order[b]);
        } else if a < p && b == p {
            assert(next[a] == order[a]);
        } else if a < p {
            assert(next[a] == order[a] && next[b] == order[b - 1]);
        } else if a == p {
            assert(next[b] == order[b - 1]);
            if b - 1 > p {
                assert(nearer(all, order[p], order[b - 1]));
            }
        } else {
            assert(next[a] == order[a - 1] && next[b] == order[b - 1]);
        }
    }
}

impl Seen {
    /// Whether an entity answers to what a caller typed. "player" and "mob" are the whole category
    /// and not part of a name.
    pub open spec fn answers(&self, query: Seq<char>) -> bool {
        let wanted = needle_of(query);
        if wanted == "player"@ {
            self.player
        } else if wanted == "mob"@ {
            self.mob
        } else {
            occurs(self.kind@, wanted) || occurs(lowercase_of(self.label@), wanted)
        }
    }

    /// The catalogue documents the filter as "player", "mob", or part of a name, so those two words
    /// are the whole category and not a substring of an id.
    pub fn matches(&self, query: &str) -> (r: bool)
        ensures
            r == self.answers(query@),
    {
        let wanted = needle(query);
        if same(wanted.as_str(), "player") {
            self.player
        } else if same(wanted.as_str(), "mob") {
            self.mob
        } else {
            contains(self.kind.as_str(), wanted.as_str()) || contains(
                lowercase(self.label.as_str()).as_str(),
                wanted.as_str(),
            )
        }
    }

    pub open spec fn name(&self) -> Seq<char> {
        if self.label@ == self.kind@ {
            self.label@
        } else {
            self.label@ + " ("@ + self.kind@ + ")"@
        }
    }

    /// How it reads in a sentence: the name, and what it is after it when a name hides that. An
    /// unnamed cow reads "cow" and not "cow (cow)".
    pub fn named(&self) -> (r: String)
        ensures
            r@ == self.name(),
    {
        if same(self.label.as_str(), self.kind.as_str()) {
            self.label.clone()
        } else {
            cat4(self.label.as_str(), " (", self.kind.as_str(), ")")
        }
    }

    /// What a label says that a player could read.
    pub open spec fn reading(&self) -> Option<Seq<char>> {
        match self.says {
            Some(said) => if trimmed(said@.words()).len() > 0 {
                Some(said@.words())
            } else {
                None
            },
            None => None,
        }
    }

    /// A label with something a player could read in it.
    pub fn readable(&self) -> (r: Option<String>)
        ensures
            match r {
                Some(text) => self.reading() == Some(text@),
                None => self.reading() is None,
            },
    {
        match &self.says {
            Some(said) => {
                let words = said.words();
                let rest = trim(words.as_str());
                proof {
                    reveal_strlit("");
                    if rest@.len() == 0 {
                        assert(rest@ =~= ""@);
                    }
                }
                if same(rest.as_str(), "") {
                    None
                } else {
                    Some(words)
                }
            },
            None => None,
        }
    }

    pub open spec fn description(&self, plate: Option<Seen>) -> Doc {
        let said = match plate {
            Some(plate) => doc_of(plate.says),
            None => None,
        };
        Doc::object().with(
            "id"@,
            match self.id {
                Some(id) => Doc::number(id as int),
                None => Doc::Null,
            },
        ).with("label"@, Doc::Text(self.label@)).with(
            "labelComponent"@,
            match self.custom {
                Some(custom) => custom@,
                None => Doc::Null,
            },
        ).with(
            "nameplate"@,
            match said {
                Some(said) => Doc::Text(said.words()),
                None => Doc::Null,
            },
        ).with(
            "nameplateComponent"@,
            match said {
                Some(said) => said,
                None => Doc::Null,
            },
        ).with("type"@, Doc::Text(self.kind@)).with("position"@, point_of(self.at)).with(
            "distance"@,
            Doc::Number(self.distance.number),
        ).with("item"@, self.item@).with("block"@, self.block@)
    }

    /// What is answered of an entity, with the label over it. A nameplate is drawn with glyphs on
    /// some servers, so the component travels too.
    pub fn describe(&self, nameplate: Option<&Seen>) -> (r: Json)
        ensures
            r@ == self.description(
                match nameplate {
                    Some(plate) => Some(*plate),
                    None => None,
                },
            ),
    {
        let said: Option<Json> = match nameplate {
            Some(plate) => copied(&plate.says),
            None => None,
        };
        let words = match &said {
            Some(said) => Json::Text(said.words()),
            None => Json::Null,
        };
        let component = match said {
            Some(said) => said,
            None => Json::Null,
        };
        let id = match self.id {
            Some(id) => Json::number(id as i64),
            None => Json::Null,
        };
        let custom = match &self.custom {
            Some(custom) => custom.copy(),
            None => Json::Null,
        };
        Json::object().with("id", id).with("label", Json::Text(self.label.clone())).with(
            "labelComponent",
            custom,
        ).with("nameplate", words).with("nameplateComponent", component).with(
            "type",
            Json::Text(self.kind.clone()),
        ).with("position", point(self.at)).with("distance", Json::Number(self.distance.number)).with(
            "item",
            self.item.copy(),
        ).with("block", self.block.copy())
    }
}

/// The number of a handle in a list, where it is in it.
pub open spec fn number_under(list: Seq<(u64, u64)>, handle: u64) -> Option<u64>
    decreases list.len(),
{
    if list.len() == 0 {
        None
    } else if list[0].0 == handle {
        Some(list[0].1)
    } else {
        number_under(list.drop_first(), handle)
    }
}

fn under(list: &Vec<(u64, u64)>, handle: u64) -> (r: Option<u64>)
    ensures
        r == number_under(list@, handle),
{
    let mut i: usize = 0;
    proof {
        assert(list@.skip(0) =~= list@);
    }
    while i < list.len()
        invariant
            i <= list@.len(),
            number_under(list@, handle) == number_under(list@.skip(i as int), handle),
        decreases list@.len() - i,
    {
        if list[i].0 == handle {
            return Some(list[i].1);
        }
        proof {
            assert(list@.skip(i as int).drop_first() =~= list@.skip(i as int + 1));
        }
        i += 1;
    }
    None
}

/// How near a label an entity is that could be the label's: one a player could click that stands
/// under it. Displays and other labels are not clickable, whatever their bounds say.
pub open spec fn claim(label: Seen, other: Seen) -> Option<u64> {
    if other.handle != label.handle && !other.display && other.says is None && other.pickable {
        number_under(label.under@, other.handle)
    } else {
        None
    }
}

fn claims(label: &Seen, other: &Seen) -> (r: Option<u64>)
    ensures
        r == claim(*label, *other),
{
    if other.handle != label.handle && !other.display && other.says.is_none() && other.pickable {
        under(&label.under, other.handle)
    } else {
        None
    }
}

/// The nearest to a label of the first `n` entities that could be the label's, the first of several
/// as near.
pub open spec fn owner_among(label: Seen, entities: Seq<Seen>, n: int) -> Option<int>
    decreases n,
{
    if n <= 0 {
        None
    } else {
        let best = owner_among(label, entities, n - 1);
        match claim(label, entities[n - 1]) {
            None => best,
            Some(near) => match best {
                None => Some(n - 1),
                Some(i) => if near < claim(label, entities[i]).unwrap() {
                    Some(n - 1)
                } else {
                    best
                },
            },
        }
    }
}

/// The entity a label belongs to.
pub open spec fn owner_of(label: Seen, entities: Seq<Seen>) -> Option<int> {
    owner_among(label, entities, entities.len() as int)
}

/// A label belongs to an entity that could be its own, and no other that could is nearer.
pub proof fn a_label_belongs_to_the_nearest(label: Seen, entities: Seq<Seen>, n: int, other: int)
    requires
        0 <= other < n <= entities.len(),
    ensures
        match owner_among(label, entities, n) {
            Some(i) => 0 <= i < n && (claim(label, entities[i]) matches Some(near) && (claim(
                label,
                entities[other],
            ) matches Some(far) ==> near <= far)),
            None => claim(label, entities[other]) is None,
        },
    decreases n,
{
    reveal_with_fuel(owner_among, 2);
    if n > 1 {
        if other < n - 1 {
            a_label_belongs_to_the_nearest(label, entities, n - 1, other);
        } else {
            a_label_belongs_to_the_nearest(label, entities, n - 1, 0);
        }
    }
}

/// The entity a label belongs to: of everything a player could click standing under it, the one
/// nearest the label.
pub fn owner(label: &Seen, entities: &Vec<Seen>) -> (r: Option<usize>)
    ensures
        match r {
            Some(i) => i < entities@.len() && owner_of(*label, entities@) == Some(i as int),
            None => owner_of(*label, entities@) is None,
        },
{
    let mut best: Option<usize> = None;
    let mut nearest: u64 = 0;
    let mut i: usize = 0;
    while i < entities.len()
        invariant
            i <= entities@.len(),
            match best {
                Some(at) => at < i && owner_among(*label, entities@, i as int) == Some(at as int)
                    && claim(*label, entities@[at as int]) == Some(nearest),
                None => owner_among(*label, entities@, i as int) is None,
            },
        decreases entities@.len() - i,
    {
        match claims(label, &entities[i]) {
            Some(near) => {
                if best.is_none() || near < nearest {
                    best = Some(i);
                    nearest = near;
                }
            },
            None => {},
        }
        i += 1;
    }
    best
}

/// The label over each entity once the first `n` labels were hung: each over the entity it belongs
/// to, and of two over one entity the lower.
pub open spec fn plates(entities: Seq<Seen>, n: int) -> Seq<Option<int>>
    decreases n,
{
    if n <= 0 {
        Seq::new(entities.len(), |i: int| None)
    } else {
        let before = plates(entities, n - 1);
        let label = entities[n - 1];
        match owner_of(label, entities) {
            Some(owner) => if label.reading() is Some && hangs_lower(
                entities,
                label,
                owner,
                before[owner],
            ) {
                before.update(owner, Some(n - 1))
            } else {
                before
            },
            None => before,
        }
    }
}

/// Whether a label hangs lower than the one that hangs over its entity already, or as low and nearer
/// the entity.
pub open spec fn hangs_lower(
    entities: Seq<Seen>,
    label: Seen,
    owner: int,
    hung: Option<int>,
) -> bool {
    match hung {
        None => true,
        Some(kept) => label.height < entities[kept].height || (label.height == entities[kept].height
            && number_or_zero(number_under(label.under@, entities[owner].handle)) < number_or_zero(
            number_under(entities[kept].under@, entities[owner].handle),
        )),
    }
}

/// A label that hangs over an entity reads as something and belongs to it, and no other that does
/// hangs lower; an entity without one has none that could.
pub proof fn the_lower_label_hangs(entities: Seq<Seen>, n: int, at: int, other: int)
    requires
        0 <= at < entities.len(),
        0 <= other < n <= entities.len(),
    ensures
        plates(entities, n).len() == entities.len(),
        match plates(entities, n)[at] {
            Some(kept) => {
                &&& 0 <= kept < n
                &&& entities[kept].reading() is Some
                &&& owner_of(entities[kept], entities) == Some(at)
                &&& entities[other].reading() is Some && owner_of(entities[other], entities) == Some(
                    at,
                ) ==> entities[kept].height <= entities[other].height
            },
            None => !(entities[other].reading() is Some && owner_of(entities[other], entities)
                == Some(at)),
        },
    decreases n,
{
    let before = plates(entities, n - 1);
    if n == 1 {
        assert(plates(entities, 0).len() == entities.len());
    } else {
        the_lower_label_hangs(entities, n - 1, at, if other < n - 1 {
            other
        } else {
            0
        });
    }
    match owner_of(entities[n - 1], entities) {
        Some(owner) => {
            a_label_belongs_to_the_nearest(
                entities[n - 1],
                entities,
                entities.len() as int,
                0,
            );
        },
        None => {},
    }
}

pub open spec fn number_or_zero(number: Option<u64>) -> u64 {
    match number {
        Some(number) => number,
        None => 0,
    }
}

pub open spec fn places(list: Seq<Option<usize>>) -> Seq<Option<int>> {
    Seq::new(
        list.len(),
        |i: int|
            match list[i] {
                Some(at) => Some(at as int),
                None => None,
            },
    )
}

/// The label over each entity that has one. A label belongs to one entity; an entity under two, a
/// name and a title stacked as separate displays, is labelled by the lower of them.
pub fn nameplates(entities: &Vec<Seen>) -> (r: Vec<Option<usize>>)
    ensures
        places(r@) == plates(entities@, entities@.len() as int),
        r@.len() == entities@.len(),
        forall|i: int| 0 <= i < r@.len() ==> (#[trigger] r@[i] matches Some(at) ==> at < r@.len()),
{
    let mut labels: Vec<Option<usize>> = Vec::new();
    let mut i: usize = 0;
    while i < entities.len()
        invariant
            i <= entities@.len(),
            labels@.len() == i,
            forall|k: int| 0 <= k < i ==> (#[trigger] labels@[k]) is None,
        decreases entities@.len() - i,
    {
        labels.push(None);
        i += 1;
    }
    proof {
        assert(places(labels@) =~= plates(entities@, 0));
    }
    let mut n: usize = 0;
    while n < entities.len()
        invariant
            n <= entities@.len(),
            labels@.len() == entities@.len(),
            places(labels@) == plates(entities@, n as int),
            forall|k: int|
                0 <= k < labels@.len() ==> (#[trigger] labels@[k] matches Some(at) ==> at < n),
        decreases entities@.len() - n,
    {
        let label = &entities[n];
        if label.readable().is_some() {
            match owner(label, entities) {
                Some(at) => {
                    let handle: u64 = entities[at].handle;
                    proof {
                        assert(places(labels@)[at as int] == match labels@[at as int] {
                            Some(k) => Some(k as int),
                            None => None,
                        });
                    }
                    let lower: bool = match labels[at] {
                        None => true,
                        Some(kept) => {
                            let mine: u64 = match under(&label.under, handle) {
                                Some(near) => near,
                                None => 0,
                            };
                            let other: u64 = match under(&entities[kept].under, handle) {
                                Some(near) => near,
                                None => 0,
                            };
                            label.height < entities[kept].height || (label.height
                                == entities[kept].height && mine < other)
                        },
                    };
                    if lower {
                        let ghost before = labels@;
                        labels.set(at, Some(n));
                        proof {
                            assert(places(labels@) =~= places(before).update(
                                at as int,
                                Some(n as int),
                            ));
                        }
                    }
                },
                None => {},
            }
        }
        n += 1;
    }
    labels
}

/// Which entity a call means.
///
/// Exactly one, because two can name different entities and either choice would click something
/// the caller may not have meant. A refusal and not an argument error, since the arguments are the
/// shape the catalogue describes and the server would otherwise drop the tool as a mismatch.
pub enum Selector {
    Name(String),
    Label(String),
    Id(i32),
    Crosshair,
}

pub enum SelectorView {
    Name(Seq<char>),
    Label(Seq<char>),
    Id(int),
    Crosshair,
}

impl View for Selector {
    type V = SelectorView;

    open spec fn view(&self) -> SelectorView {
        match self {
            Selector::Name(name) => SelectorView::Name(name@),
            Selector::Label(label) => SelectorView::Label(label@),
            Selector::Id(id) => SelectorView::Id(*id as int),
            Selector::Crosshair => SelectorView::Crosshair,
        }
    }
}

/// A number of 64 bits cut to a signed 32.
pub open spec fn cut_to_i32(n: int) -> int {
    let low = n % 0x1_0000_0000;
    if low < 0x8000_0000 {
        low
    } else {
        low - 0x1_0000_0000
    }
}

/// The id a call gives, where it gives one.
pub open spec fn id_of(args: Doc) -> Result<Option<int>, FailureView> {
    match given(args, "id"@) {
        Doc::Null => Ok(None),
        _ => match integer_of(args, "id"@, 0) {
            Ok(n) => Ok(Some(cut_to_i32(n as int))),
            Err(failure) => Err(failure),
        },
    }
}

/// The selectors a call gives, each with its word.
pub open spec fn selectors(args: Doc, id: Option<int>) -> Seq<(Seq<char>, SelectorView)> {
    let name = match args.text_at("name"@) {
        Some(name) => seq![("name"@, SelectorView::Name(name))],
        None => Seq::empty(),
    };
    let label = match args.text_at("label"@) {
        Some(label) => seq![("label"@, SelectorView::Label(label))],
        None => Seq::empty(),
    };
    let number = match id {
        Some(id) => seq![("id"@, SelectorView::Id(id))],
        None => Seq::empty(),
    };
    let crosshair = if args.bool_at("crosshair"@) == Some(true) {
        seq![("crosshair"@, SelectorView::Crosshair)]
    } else {
        Seq::empty()
    };
    name + label + number + crosshair
}

/// Some words as a sentence lists them.
pub open spec fn listed_words(words: Seq<Seq<char>>) -> Seq<char> {
    if words.len() == 0 {
        "none"@
    } else if words.len() == 1 {
        words[0]
    } else {
        joined(words.drop_last(), ", "@) + " and "@ + words.last()
    }
}

pub open spec fn selector_words(list: Seq<(Seq<char>, SelectorView)>) -> Seq<Seq<char>> {
    Seq::new(list.len(), |i: int| list[i].0)
}

/// The one selector a call gives, or what is wrong with it.
pub open spec fn selector_of(args: Doc) -> Result<SelectorView, FailureView> {
    match id_of(args) {
        Err(failure) => Err(failure),
        Ok(id) => {
            let list = selectors(args, id);
            if list.len() == 1 {
                Ok(list[0].1)
            } else {
                Err(
                    FailureView::refusal(
                        "ONE_SELECTOR"@,
                        "Say which entity with exactly one of name, label, id or crosshair; this call gave "@
                            + listed_words(selector_words(list)) + "."@,
                    ),
                )
            }
        },
    }
}

fn list_words(words: &Vec<String>) -> (r: String)
    ensures
        r@ == listed_words(texts(words@)),
{
    let n: usize = words.len();
    if n == 0 {
        return "none".to_owned();
    }
    if n == 1 {
        return words[0].clone();
    }
    let mut first: Vec<String> = Vec::new();
    let mut i: usize = 0;
    while i < n - 1
        invariant
            i <= n - 1,
            n == words@.len(),
            n >= 2,
            texts(first@) == texts(words@).take(i as int),
        decreases n - 1 - i,
    {
        let ghost before = first@;
        first.push(words[i].clone());
        proof {
            assert(texts(first@) =~= texts(before).push(words@[i as int]@));
            assert(texts(words@).take(i as int + 1) =~= texts(words@).take(i as int).push(
                words@[i as int]@,
            ));
        }
        i += 1;
    }
    proof {
        assert(texts(words@).take(n - 1) =~= texts(words@).drop_last());
    }
    cat3(join(&first, ", ").as_str(), " and ", words[n - 1].as_str())
}

impl Selector {
    pub fn of(args: &Json) -> (r: Result<Selector, Failure>)
        ensures
            match r {
                Ok(selector) => selector_of(args@) == Ok::<SelectorView, FailureView>(selector@),
                Err(failure) => selector_of(args@) == Err::<SelectorView, FailureView>(failure@),
            },
    {
        let id: Option<i32> = match args.get("id") {
            None => None,
            Some(Json::Null) => None,
            Some(_) => match integer(args, "id", 0) {
                Ok(n) => {
                    let low: u32 = wrapped_u32(n);
                    Some(
                        if low < 0x8000_0000 {
                            low as i32
                        } else {
                            (low as i64 - 0x1_0000_0000) as i32
                        },
                    )
                },
                Err(failure) => {
                    return Err(failure);
                },
            },
        };
        let mut words: Vec<String> = Vec::new();
        let mut only: Option<Selector> = None;
        let ghost list = selectors(
            args@,
            match id {
                Some(id) => Some(id as int),
                None => None,
            },
        );
        match args.text_at("name") {
            Some(name) => {
                words.push("name".to_owned());
                only = Some(Selector::Name(name.to_owned()));
            },
            None => {},
        }
        match args.text_at("label") {
            Some(label) => {
                words.push("label".to_owned());
                only = Some(Selector::Label(label.to_owned()));
            },
            None => {},
        }
        match id {
            Some(id) => {
                words.push("id".to_owned());
                only = Some(Selector::Id(id));
            },
            None => {},
        }
        match args.bool_at("crosshair") {
            Some(true) => {
                words.push("crosshair".to_owned());
                only = Some(Selector::Crosshair);
            },
            _ => {},
        }
        proof {
            assert(texts(words@) =~= selector_words(list));
            assert(texts(words@).len() == words@.len());
        }
        if words.len() == 1 {
            match only {
                Some(selector) => {
                    return Ok(selector);
                },
                None => {},
            }
        }
        Err(
            Failure::refused(
                "ONE_SELECTOR",
                cat3(
                    "Say which entity with exactly one of name, label, id or crosshair; this call gave ",
                    list_words(&words).as_str(),
                    ".",
                ),
            ),
        )
    }
}

/// The first of the entities in range that answers to a query.
pub open spec fn first_answer(entities: Seq<Seen>, query: Seq<char>, from: int) -> Option<int>
    decreases entities.len() - from,
{
    if from < 0 || from >= entities.len() {
        None
    } else if entities[from].distance.in_range && entities[from].answers(query) {
        Some(from)
    } else {
        first_answer(entities, query, from + 1)
    }
}

/// An entity and how far away it is.
pub open spec fn away(name: Seq<char>, seen: Seen) -> Seq<char> {
    name + " ("@ + seen.distance.text@ + " blocks away)"@
}

/// The first few of the entities in range, with how far away each is.
pub open spec fn in_range_list(entities: Seq<Seen>, n: int) -> Seq<Seq<char>>
    decreases n,
{
    if n <= 0 {
        Seq::empty()
    } else {
        let before = in_range_list(entities, n - 1);
        let seen = entities[n - 1];
        if seen.distance.in_range && before.len() < MAX_LISTED {
            before.push(away(seen.label@, seen))
        } else {
            before
        }
    }
}

/// What is said when nothing answers to a name.
pub open spec fn no_such_entity(entities: Seq<Seen>, query: Seq<char>, range: Seq<char>) -> FailureView {
    let listed = in_range_list(entities, entities.len() as int);
    FailureView::refusal(
        "NO_SUCH_ENTITY"@,
        "Nothing within "@ + range + " blocks is named like \""@ + query + "\". "@ + if listed.len()
            == 0 {
            "Nothing else is in range either."@
        } else {
            "In range: "@ + joined(listed, ", "@) + "."@
        },
    )
}

/// The nearest entity answering to what a caller typed, or a refusal naming what was in range
/// instead. Being told what is nearby is the difference between "my NPC did not spawn" and "I
/// spelled its name wrong".
pub fn require(entities: &Vec<Seen>, query: &str, range: &str) -> (r: Result<usize, Failure>)
    ensures
        match r {
            Ok(i) => first_answer(entities@, query@, 0) == Some(i as int) && i < entities@.len(),
            Err(failure) => first_answer(entities@, query@, 0) is None && failure@ == no_such_entity(
                entities@,
                query@,
                range@,
            ),
        },
{
    let mut i: usize = 0;
    let mut listed: Vec<String> = Vec::new();
    proof {
        assert(texts(listed@) =~= in_range_list(entities@, 0));
    }
    while i < entities.len()
        invariant
            i <= entities@.len(),
            first_answer(entities@, query@, 0) == first_answer(entities@, query@, i as int),
            texts(listed@) == in_range_list(entities@, i as int),
        decreases entities@.len() - i,
    {
        let seen = &entities[i];
        if seen.distance.in_range && seen.matches(query) {
            return Ok(i);
        }
        proof {
            assert(texts(listed@).len() == listed@.len());
        }
        if seen.distance.in_range && listed.len() < MAX_LISTED {
            let ghost before = listed@;
            listed.push(
                cat4(seen.label.as_str(), " (", seen.distance.text.as_str(), " blocks away)"),
            );
            proof {
                assert(texts(listed@) =~= texts(before).push(listed@.last()@));
            }
        }
        i += 1;
    }
    proof {
        assert(texts(listed@).len() == listed@.len());
    }
    let instead = if listed.len() == 0 {
        "Nothing else is in range either.".to_owned()
    } else {
        cat3("In range: ", join(&listed, ", ").as_str(), ".")
    };
    Err(
        Failure::refused(
            "NO_SUCH_ENTITY",
            cat6(
                "Nothing within ",
                range,
                " blocks is named like \"",
                query,
                "\". ",
                instead.as_str(),
            ),
        ),
    )
}

/// Whether a label reads like a query.
pub open spec fn reads_like(seen: Seen, needle: Seq<char>) -> bool {
    seen.reading() matches Some(said) && occurs(lowercase_of(said), needle)
}

/// The entity in range under the first of the labels, from one on, that reads like a query.
pub open spec fn first_under(entities: Seq<Seen>, needle: Seq<char>, from: int) -> Option<int>
    decreases entities.len() - from,
{
    if from < 0 || from >= entities.len() {
        None
    } else {
        let owner = owner_of(entities[from], entities);
        if reads_like(entities[from], needle) && owner is Some
            && entities[owner.unwrap()].distance.in_range {
            owner
        } else {
            first_under(entities, needle, from + 1)
        }
    }
}

/// The first few of the labels in range, with how far away each is.
pub open spec fn labels_in_range(entities: Seq<Seen>, n: int) -> Seq<Seq<char>>
    decreases n,
{
    if n <= 0 {
        Seq::empty()
    } else {
        let before = labels_in_range(entities, n - 1);
        let seen = entities[n - 1];
        match seen.reading() {
            Some(said) => if seen.distance.in_range && before.len() < MAX_LISTED {
                before.push(away(said, seen))
            } else {
                before
            },
            None => before,
        }
    }
}

/// What is said when nothing stands under a label that reads like a query.
pub open spec fn no_such_label(entities: Seq<Seen>, query: Seq<char>, range: Seq<char>) -> FailureView {
    let listed = labels_in_range(entities, entities.len() as int);
    FailureView::refusal(
        "NO_SUCH_LABEL"@,
        "Nothing within "@ + range + " blocks stands under a label reading like \""@ + query
            + "\". "@ + if listed.len() == 0 {
            "No label is in range either."@
        } else {
            "Labels in range: "@ + joined(listed, ", "@) + "."@
        },
    )
}

/// The nearest label that reads like the query and has an entity in range under it.
pub fn under_label(entities: &Vec<Seen>, query: &str, range: &str) -> (r: Result<usize, Failure>)
    ensures
        match r {
            Ok(i) => first_under(entities@, lowercase_of(query@), 0) == Some(i as int) && i
                < entities@.len(),
            Err(failure) => first_under(entities@, lowercase_of(query@), 0) is None && failure@
                == no_such_label(entities@, query@, range@),
        },
{
    let wanted = lowercase(query);
    let mut i: usize = 0;
    let mut listed: Vec<String> = Vec::new();
    proof {
        assert(texts(listed@) =~= labels_in_range(entities@, 0));
    }
    while i < entities.len()
        invariant
            i <= entities@.len(),
            wanted@ == lowercase_of(query@),
            first_under(entities@, wanted@, 0) == first_under(entities@, wanted@, i as int),
            texts(listed@) == labels_in_range(entities@, i as int),
        decreases entities@.len() - i,
    {
        let seen = &entities[i];
        proof {
            assert(texts(listed@).len() == listed@.len());
        }
        match seen.readable() {
            Some(said) => {
                if contains(lowercase(said.as_str()).as_str(), wanted.as_str()) {
                    match owner(seen, entities) {
                        Some(at) => {
                            if entities[at].distance.in_range {
                                return Ok(at);
                            }
                        },
                        None => {},
                    }
                }
                if seen.distance.in_range && listed.len() < MAX_LISTED {
                    let ghost before = listed@;
                    listed.push(
                        cat4(said.as_str(), " (", seen.distance.text.as_str(), " blocks away)"),
                    );
                    proof {
                        assert(texts(listed@) =~= texts(before).push(listed@.last()@));
                    }
                }
            },
            None => {},
        }
        i += 1;
    }
    proof {
        assert(texts(listed@).len() == listed@.len());
    }
    let instead = if listed.len() == 0 {
        "No label is in range either.".to_owned()
    } else {
        cat3("Labels in range: ", join(&listed, ", ").as_str(), ".")
    };
    Err(
        Failure::refused(
            "NO_SUCH_LABEL",
            cat6(
                "Nothing within ",
                range,
                " blocks stands under a label reading like \"",
                query,
                "\". ",
                instead.as_str(),
            ),
        ),
    )
}

/// The first of the entities, from one on, that has an id.
pub open spec fn first_with_id(entities: Seq<Seen>, id: int, from: int) -> Option<int>
    decreases entities.len() - from,
{
    if from < 0 || from >= entities.len() {
        None
    } else if entities[from].id matches Some(own) && own == id {
        Some(from)
    } else {
        first_with_id(entities, id, from + 1)
    }
}

/// The entity a selector means: by name, by label or by id among those in sight, by the crosshair
/// the one it is on.
pub open spec fn meant(
    selector: SelectorView,
    entities: Seq<Seen>,
    crosshair: Option<int>,
    range: Seq<char>,
) -> Result<int, FailureView> {
    match selector {
        SelectorView::Name(query) => match first_answer(entities, query, 0) {
            Some(i) => Ok(i),
            None => Err(no_such_entity(entities, query, range)),
        },
        SelectorView::Label(query) => match first_under(entities, lowercase_of(query), 0) {
            Some(i) => Ok(i),
            None => Err(no_such_label(entities, query, range)),
        },
        SelectorView::Id(id) => match first_with_id(entities, id, 0) {
            Some(i) => Ok(i),
            None => Err(
                FailureView::refusal(
                    "NO_SUCH_ENTITY"@,
                    "No entity with id "@ + dec(id) + " is in the bot's world."@,
                ),
            ),
        },
        SelectorView::Crosshair => match crosshair {
            Some(i) => Ok(i),
            None => Err(
                FailureView::refusal(
                    "NOT_LOOKING_AT_ENTITY"@,
                    "The crosshair is not on an entity within reach."@,
                ),
            ),
        },
    }
}

/// The entity a selector means, with the one of them the crosshair is on.
pub fn resolve(
    selector: &Selector,
    entities: &Vec<Seen>,
    crosshair: Option<usize>,
    range: &str,
) -> (r: Result<usize, Failure>)
    ensures
        ({
            let want = meant(
                selector@,
                entities@,
                match crosshair {
                    Some(i) => Some(i as int),
                    None => None,
                },
                range@,
            );
            match r {
                Ok(i) => want == Ok::<int, FailureView>(i as int),
                Err(failure) => want == Err::<int, FailureView>(failure@),
            }
        }),
{
    match selector {
        Selector::Name(query) => require(entities, query.as_str(), range),
        Selector::Label(query) => under_label(entities, query.as_str(), range),
        Selector::Id(id) => {
            let mut i: usize = 0;
            while i < entities.len()
                invariant
                    i <= entities@.len(),
                    first_with_id(entities@, *id as int, 0) == first_with_id(
                        entities@,
                        *id as int,
                        i as int,
                    ),
                    selector@ == SelectorView::Id(*id as int),
                decreases entities@.len() - i,
            {
                match entities[i].id {
                    Some(own) => {
                        if own == *id {
                            return Ok(i);
                        }
                    },
                    None => {},
                }
                i += 1;
            }
            Err(
                Failure::refused(
                    "NO_SUCH_ENTITY",
                    cat3(
                        "No entity with id ",
                        signed(*id as i64).as_str(),
                        " is in the bot's world.",
                    ),
                ),
            )
        },
        Selector::Crosshair => match crosshair {
            Some(i) => Ok(i),
            None => Err(
                Failure::refused(
                    "NOT_LOOKING_AT_ENTITY",
                    "The crosshair is not on an entity within reach.".to_owned(),
                ),
            ),
        },
    }
}

/// Whether an entity is one that a search finds.
pub open spec fn found(seen: Seen, query: Option<Seq<char>>) -> bool {
    seen.distance.in_range && (query matches Some(query) ==> seen.answers(query))
}

/// What a search answers of the first `n` entities: those in range that answer to the query, each
/// with the label over it, and no more than were asked for.
pub open spec fn finds(
    entities: Seq<Seen>,
    query: Option<Seq<char>>,
    count: int,
    n: int,
) -> Seq<Doc>
    decreases n,
{
    if n <= 0 {
        Seq::empty()
    } else {
        let before = finds(entities, query, count, n - 1);
        if found(entities[n - 1], query) && before.len() < count {
            let plate = plates(entities, entities.len() as int)[n - 1];
            before.push(
                entities[n - 1].description(
                    match plate {
                        Some(at) => Some(entities[at]),
                        None => None,
                    },
                ),
            )
        } else {
            before
        }
    }
}

/// What find-entity answers. The labels are read from everything loaded: one out of range can still
/// be over an entity that is in it.
pub fn find_entity(args: &Json, entities: &Vec<Seen>, max_distance: Number) -> (r: Result<
    Answer,
    Failure,
>)
    ensures
        match r {
            Ok(answer) => integer_of(args@, "count"@, 1) matches Ok(count) && answer@
                == AnswerView::full(
                "find-entity"@,
                Doc::object().with("query"@, given(args@, "type"@)).with(
                    "maxDistance"@,
                    Doc::Number(max_distance),
                ).with(
                    "entities"@,
                    Doc::list(
                        finds(entities@, args@.text_at("type"@), count as int, entities@.len() as int),
                    ),
                ),
            ),
            Err(failure) => integer_of(args@, "count"@, 1) == Err::<i64, FailureView>(failure@),
        },
{
    let count: i64 = match integer(args, "count", 1) {
        Ok(n) => n,
        Err(failure) => {
            return Err(failure);
        },
    };
    let query: Option<&str> = args.text_at("type");
    let ghost wanted = args@.text_at("type"@);
    let labels = nameplates(entities);
    let mut out: Vec<Json> = Vec::new();
    let mut i: usize = 0;
    proof {
        assert(docs(out@) =~= finds(entities@, wanted, count as int, 0));
    }
    while i < entities.len()
        invariant
            i <= entities@.len(),
            labels@.len() == entities@.len(),
            places(labels@) == plates(entities@, entities@.len() as int),
            forall|k: int|
                0 <= k < labels@.len() ==> (#[trigger] labels@[k] matches Some(at) ==> at
                    < labels@.len()),
            wanted == match query {
                Some(query) => Some(query@),
                None => None,
            },
            docs(out@) == finds(entities@, wanted, count as int, i as int),
        decreases entities@.len() - i,
    {
        let seen = &entities[i];
        let answers: bool = match query {
            Some(query) => seen.matches(query),
            None => true,
        };
        proof {
            assert(docs(out@).len() == out@.len());
            assert(places(labels@)[i as int] == match labels@[i as int] {
                Some(k) => Some(k as int),
                None => None,
            });
        }
        if seen.distance.in_range && answers && count > 0 && (out.len() as u64) < count as u64 {
            let ghost before = out@;
            let plate: Option<&Seen> = match labels[i] {
                Some(at) => Some(&entities[at]),
                None => None,
            };
            out.push(seen.describe(plate));
            proof {
                assert(docs(out@) =~= docs(before).push(out@.last()@));
            }
        }
        i += 1;
    }
    let wanted_doc = match args.get("type") {
        Some(value) => value.copy(),
        None => Json::Null,
    };
    Ok(
        Answer::data(
            "find-entity".to_owned(),
            Json::object().with("query", wanted_doc).with(
                "maxDistance",
                Json::Number(max_distance),
            ).with("entities", Json::list(out)),
        ),
    )
}

/// Swings at an entity, more than one when asked, walking after it before each so a mob that backs
/// off is followed rather than missed.
///
/// A target that dies partway through is the count that landed and not a failure: something that
/// went away because it was killed is the tool working.
pub struct Assault {
    pub label: String,
    pub times: i64,
    pub landed: i64,
    pub waiting: u32,
    /// The target was picked by where the bot looks, and is hit only while it is there.
    pub by_crosshair: bool,
}

/// What is to be done about the target.
pub enum Move {
    /// Wait a tick.
    Wait,
    /// Walk after it, or wait a tick.
    Follow,
    /// Hit it.
    Hit,
    Answer(Answer),
}

pub open spec fn gave_up(assault: Assault, why: Seq<char>) -> AnswerView {
    AnswerView::plain(
        "Hit "@ + assault.label@ + " "@ + dec(assault.landed as int) + " time(s) out of "@ + dec(
            assault.times as int,
        ) + why,
    )
}

impl Assault {
    pub fn new(label: String, times: i64, by_crosshair: bool) -> (r: Assault)
        ensures
            r == (Assault { label, times, landed: 0, waiting: 0, by_crosshair }),
    {
        Assault { label, times, landed: 0, waiting: 0, by_crosshair }
    }

    fn short(&self, why: &str) -> (r: Answer)
        ensures
            r@ == gave_up(*self, why@),
    {
        Answer::text(
            cat7(
                "Hit ",
                self.label.as_str(),
                " ",
                signed(self.landed).as_str(),
                " time(s) out of ",
                signed(self.times).as_str(),
                why,
            ),
        )
    }

    /// The next thing to do, with whether the target is in the world, is on the crosshair, and is
    /// within reach.
    pub fn next(&mut self, present: bool, aimed: bool, reached: bool) -> (r: Move)
        ensures
            *final(self) == (Assault {
                waiting: if old(self).waiting > 0 {
                    (old(self).waiting - 1) as u32
                } else {
                    0
                },
                ..*old(self)
            }),
            match r {
                Move::Wait => old(self).waiting > 0,
                Move::Answer(answer) => {
                    &&& old(self).waiting == 0
                    &&& !present ==> answer@ == gave_up(
                        *old(self),
                        "; it left the world before the rest landed."@,
                    )
                    &&& present ==> old(self).by_crosshair && !aimed && answer@ == gave_up(
                        *old(self),
                        "; it left the crosshair before the rest landed."@,
                    )
                },
                Move::Follow => old(self).waiting == 0 && present && !old(self).by_crosshair
                    && !reached,
                Move::Hit => old(self).waiting == 0 && present && if old(self).by_crosshair {
                    aimed
                } else {
                    reached
                },
            },
    {
        if self.waiting > 0 {
            self.waiting = self.waiting - 1;
            return Move::Wait;
        }
        if !present {
            return Move::Answer(self.short("; it left the world before the rest landed."));
        }
        if self.by_crosshair {
            if !aimed {
                return Move::Answer(self.short("; it left the crosshair before the rest landed."));
            }
            return Move::Hit;
        }
        if !reached {
            return Move::Follow;
        }
        Move::Hit
    }

    /// A swing was made: the answer once it was the last.
    pub fn landed(&mut self) -> (r: Option<Answer>)
        requires
            old(self).landed < i64::MAX,
        ensures
            *final(self) == (Assault {
                landed: (old(self).landed + 1) as i64,
                waiting: if old(self).landed + 1 == old(self).times {
                    old(self).waiting
                } else {
                    INTERVAL_TICKS
                },
                ..*old(self)
            }),
            match r {
                Some(answer) => old(self).landed + 1 == old(self).times && answer@
                    == AnswerView::plain(
                    "Hit "@ + old(self).label@ + " "@ + dec(old(self).landed + 1) + " time(s)."@,
                ),
                None => old(self).landed + 1 != old(self).times,
            },
    {
        self.landed = self.landed + 1;
        if self.landed == self.times {
            return Some(
                Answer::text(
                    cat5(
                        "Hit ",
                        self.label.as_str(),
                        " ",
                        signed(self.landed).as_str(),
                        " time(s).",
                    ),
                ),
            );
        }
        self.waiting = INTERVAL_TICKS;
        None
    }
}

/// What is answered of an entity that was right-clicked.
pub fn clicked(target: &Seen) -> (r: Answer)
    ensures
        r@ == AnswerView::plain("Right-clicked "@ + target.name() + "."@),
{
    Answer::text(cat3("Right-clicked ", target.named().as_str(), "."))
}

/// What is said of an entity that was gone before it was hit.
pub fn gone_before_hit() -> (r: Failure)
    ensures
        r@ == FailureView::refusal(
            "NO_SUCH_ENTITY"@,
            "the entity left the world before it was hit."@,
        ),
{
    Failure::refused("NO_SUCH_ENTITY", "the entity left the world before it was hit.".to_owned())
}

/// What is said of an entity that was gone before it was clicked.
pub fn gone_before_clicked() -> (r: Failure)
    ensures
        r@ == FailureView::refusal(
            "NO_SUCH_ENTITY"@,
            "the entity left the world before it was clicked."@,
        ),
{
    Failure::refused("NO_SUCH_ENTITY", "the entity left the world before it was clicked.".to_owned())
}

/// What is said of an entity that was gone before it was reached.
pub fn lost(target: &Seen) -> (r: Failure)
    ensures
        r@ == FailureView::refusal(
            "NO_SUCH_ENTITY"@,
            target.name() + " left the world before it was reached."@,
        ),
{
    Failure::refused(
        "NO_SUCH_ENTITY",
        cat2(target.named().as_str(), " left the world before it was reached."),
    )
}

/// "player" is the whole category of players and "mob" that of mobs, whatever an entity is called;
/// anything else is part of what it is or of what it is called.
pub proof fn a_category_is_taken_whole(seen: Seen, query: Seq<char>)
    ensures
        needle_of(query) == "player"@ ==> (seen.answers(query) <==> seen.player),
        needle_of(query) == "mob"@ ==> (seen.answers(query) <==> seen.mob),
        needle_of(query) != "player"@ && needle_of(query) != "mob"@ ==> (seen.answers(query) <==> occurs(
            seen.kind@,
            needle_of(query),
        ) || occurs(lowercase_of(seen.label@), needle_of(query))),
{
    reveal_strlit("player");
    reveal_strlit("mob");
    assert("player"@.len() == 6);
    assert("mob"@.len() == 3);
}

/// An entity as it is seen is the entity as it is kept: called by the name a server gave it, else by
/// a player's own, else by what it is.
pub proof fn an_entity_is_seen_as_it_is(seen: Seen, kept: Kept)
    requires
        sees(seen, kept),
    ensures
        seen.handle == kept.handle && seen.id == kept.id && seen.at == kept.at,
        seen.player == kept.player && seen.mob == kept.mob && seen.display == kept.display,
        seen.distance.number == kept.distance.number && seen.distance.in_range
            == kept.distance.in_range && seen.distance.text@ == kept.distance.text@,
        seen.kind@ == bare(kept.kind@),
        kept.custom matches Some(custom) ==> seen.label@ == custom@.words(),
        kept.custom is None ==> (kept.profile matches Some(name) ==> (kept.player ==> seen.label@
            == name@)),
        kept.custom is None && !kept.player ==> seen.label@ == bare(kept.kind@),
        kept.text matches Some(text) ==> (seen.says matches Some(said) && said@ == text@),
        kept.text is None && !(kept.stand && kept.invisible && kept.name_visible) ==> seen.says is None,
        kept.interaction || kept.boat ==> seen.pickable,
        kept.living && !kept.marker && !kept.interaction && !kept.boat && !kept.minecart
            ==> seen.pickable == !kept.dead,
        kept.minecart && !kept.living && !kept.interaction && !kept.boat ==> seen.pickable
            == !kept.dead,
        !kept.interaction && !kept.boat && !kept.minecart && !kept.living ==> !seen.pickable,
{
}

/// Everything in the bot's world is seen, nothing else is, and what is nearer comes first.
pub proof fn the_nearer_comes_first(all: Seq<Kept>, seen: Seq<Seen>, a: int, b: int)
    requires
        in_sight(all, seen),
        0 <= a < b < seen.len(),
    ensures
        seen[a].distance.order <= seen[b].distance.order,
        exists|i: int| 0 <= i < all.len() && (#[trigger] all[i]).here && sees(seen[a], all[i]),
        forall|i: int|
            0 <= i < all.len() && (#[trigger] all[i]).here ==> exists|k: int|
                0 <= k < seen.len() && sees(#[trigger] seen[k], all[i]),
{
    let order = choose|order: Seq<int>|
        {
            &&& #[trigger] nearest_first_among(all, order, all.len() as int)
            &&& seen.len() == order.len()
            &&& forall|k: int| 0 <= k < seen.len() ==> sees(#[trigger] seen[k], all[order[k]])
        };
    assert(nearer(all, order[a], order[b]));
    assert(sees(seen[a], all[order[a]]) && sees(seen[b], all[order[b]]));
    assert(order.contains(order[a]));
    assert(all[order[a]].here);
    assert forall|i: int| 0 <= i < all.len() && (#[trigger] all[i]).here implies exists|k: int|
        0 <= k < seen.len() && sees(#[trigger] seen[k], all[i]) by {
        assert(order.contains(i));
        let k = order.index_of(i);
        assert(sees(seen[k], all[order[k]]));
    }
}

/// What is told of an entity, field by field.
pub proof fn an_entity_is_told_as_it_is_seen(seen: Seen, plate: Option<Seen>)
    ensures
        ({
            let told = seen.description(plate);
            &&& seen.id matches Some(id) ==> told.at("id"@) == Some(Doc::number(id as int))
            &&& seen.id is None ==> told.at("id"@) == Some(Doc::Null)
            &&& told.text_at("label"@) == Some(seen.label@)
            &&& seen.custom matches Some(custom) ==> told.at("labelComponent"@) == Some(custom@)
            &&& seen.custom is None ==> told.at("labelComponent"@) == Some(Doc::Null)
            &&& told.text_at("type"@) == Some(seen.kind@)
            &&& told.at("position"@) == Some(point_of(seen.at))
            &&& told.at("distance"@) == Some(Doc::Number(seen.distance.number))
            &&& told.at("item"@) == Some(seen.item@)
            &&& told.at("block"@) == Some(seen.block@)
            &&& plate is None ==> told.at("nameplate"@) == Some(Doc::Null)
                && told.at("nameplateComponent"@) == Some(Doc::Null)
            &&& plate matches Some(plate) ==> (plate.says matches Some(said) ==> told.text_at(
                "nameplate"@,
            ) == Some(said@.words()) && told.at("nameplateComponent"@) == Some(said@))
        }),
{
    broadcast use {a_field_reads_back, an_empty_object_has_nothing};
    reveal_strlit("id");
    reveal_strlit("label");
    reveal_strlit("labelComponent");
    reveal_strlit("nameplate");
    reveal_strlit("nameplateComponent");
    reveal_strlit("type");
    reveal_strlit("position");
    reveal_strlit("distance");
    reveal_strlit("item");
    reveal_strlit("block");
    assert("id"@.len() == 2);
    assert("label"@.len() == 5);
    assert("labelComponent"@.len() == 14);
    assert("nameplate"@.len() == 9);
    assert("nameplateComponent"@.len() == 18);
    assert("type"@.len() == 4);
    assert("position"@.len() == 8);
    assert("distance"@.len() == 8);
    assert("item"@.len() == 4);
    assert("block"@.len() == 5);
    assert("label"@[0] != "block"@[0]);
    assert("type"@[0] != "item"@[0]);
    assert("position"@[0] != "distance"@[0]);
}

/// How an entity reads: its name alone where that is what it is, and what it is behind it otherwise.
pub proof fn an_entity_reads_by_its_name(seen: Seen)
    ensures
        seen.label@ == seen.kind@ ==> seen.name() == seen.kind@,
        seen.label@ != seen.kind@ ==> seen.name() == seen.label@ + " ("@ + seen.kind@ + ")"@,
        seen.says is None ==> seen.reading() is None,
        seen.says matches Some(said) ==> (seen.reading() is Some <==> trimmed(said@.words()).len()
            > 0),
        seen.reading() matches Some(read) ==> (seen.says matches Some(said) && read == said@.words()),
{
}

/// The entity a name means is in range and answers to it, and nothing nearer does.
pub proof fn a_name_means_the_nearest_that_answers(entities: Seq<Seen>, query: Seq<char>, from: int, other: int)
    requires
        0 <= from <= other < entities.len(),
    ensures
        match first_answer(entities, query, from) {
            Some(i) => {
                &&& from <= i < entities.len()
                &&& entities[i].distance.in_range && entities[i].answers(query)
                &&& entities[other].distance.in_range && entities[other].answers(query) ==> i <= other
            },
            None => !(entities[other].distance.in_range && entities[other].answers(query)),
        },
    decreases entities.len() - from,
{
    if !(entities[from].distance.in_range && entities[from].answers(query)) {
        if from < other {
            a_name_means_the_nearest_that_answers(entities, query, from + 1, other);
        } else if from + 1 < entities.len() {
            a_name_means_the_nearest_that_answers(entities, query, from + 1, from + 1);
        }
    }
}

/// The entity an id means has it.
pub proof fn an_id_means_the_one_that_has_it(entities: Seq<Seen>, id: int, from: int, other: int)
    requires
        0 <= from <= other < entities.len(),
    ensures
        match first_with_id(entities, id, from) {
            Some(i) => from <= i < entities.len() && (entities[i].id matches Some(own) && own == id),
            None => !(entities[other].id matches Some(own) && own == id),
        },
    decreases entities.len() - from,
{
    if !(entities[from].id matches Some(own) && own == id) {
        if from < other {
            an_id_means_the_one_that_has_it(entities, id, from + 1, other);
        } else if from + 1 < entities.len() {
            an_id_means_the_one_that_has_it(entities, id, from + 1, from + 1);
        }
    }
}

/// The entity a label means stands under a label that reads like it, and is in range.
pub proof fn a_label_means_what_stands_under_it(entities: Seq<Seen>, needle: Seq<char>, from: int)
    requires
        0 <= from,
    ensures
        first_under(entities, needle, from) matches Some(i) ==> exists|label: int|
            from <= label < entities.len() && owner_of(#[trigger] entities[label], entities) == Some(i)
                && entities[i].distance.in_range && (entities[label].reading() matches Some(said)
                && occurs(lowercase_of(said), needle)),
    decreases entities.len() - from,
{
    if from < entities.len() {
        a_label_means_what_stands_under_it(entities, needle, from + 1);
        let owner = owner_of(entities[from], entities);
        if reads_like(entities[from], needle) && owner is Some
            && entities[owner.unwrap()].distance.in_range {
            assert(owner_of(entities[from], entities) == Some(owner->0));
        }
    }
}

/// What each selector means: a name the nearest that answers, a label what stands under it, an id
/// the one that has it, and the crosshair what it is on.
pub proof fn each_selector_means_its_own(
    entities: Seq<Seen>,
    crosshair: Option<int>,
    range: Seq<char>,
    query: Seq<char>,
    id: int,
)
    ensures
        first_answer(entities, query, 0) matches Some(i) ==> meant(
            SelectorView::Name(query),
            entities,
            crosshair,
            range,
        ) == Ok::<int, FailureView>(i),
        first_answer(entities, query, 0) is None ==> (meant(
            SelectorView::Name(query),
            entities,
            crosshair,
            range,
        ) matches Err(failure) && failure.code == "NO_SUCH_ENTITY"@),
        first_under(entities, lowercase_of(query), 0) matches Some(i) ==> meant(
            SelectorView::Label(query),
            entities,
            crosshair,
            range,
        ) == Ok::<int, FailureView>(i),
        first_under(entities, lowercase_of(query), 0) is None ==> (meant(
            SelectorView::Label(query),
            entities,
            crosshair,
            range,
        ) matches Err(failure) && failure.code == "NO_SUCH_LABEL"@),
        first_with_id(entities, id, 0) matches Some(i) ==> meant(
            SelectorView::Id(id),
            entities,
            crosshair,
            range,
        ) == Ok::<int, FailureView>(i),
        first_with_id(entities, id, 0) is None ==> (meant(
            SelectorView::Id(id),
            entities,
            crosshair,
            range,
        ) matches Err(failure) && failure.code == "NO_SUCH_ENTITY"@),
        crosshair matches Some(i) ==> meant(SelectorView::Crosshair, entities, crosshair, range)
            == Ok::<int, FailureView>(i),
        crosshair is None ==> (meant(SelectorView::Crosshair, entities, crosshair, range) matches Err(
            failure,
        ) && failure.code == "NOT_LOOKING_AT_ENTITY"@),
{
}

/// Exactly one selector says which entity is meant, and it is the one that was given.
pub proof fn one_selector_is_given(args: Doc, n: i64)
    requires
        args.at("id"@) is None || args.at("id"@) == Some(Doc::Number(Number::Whole(n))),
        i32::MIN <= n <= i32::MAX,
    ensures
        ({
            let name = args.text_at("name"@);
            let label = args.text_at("label"@);
            let id = args.at("id"@) is Some;
            let aim = args.bool_at("crosshair"@) == Some(true);
            &&& name is Some && label is None && !id && !aim ==> selector_of(args) == Ok::<
                SelectorView,
                FailureView,
            >(SelectorView::Name(name->0))
            &&& name is None && label is Some && !id && !aim ==> selector_of(args) == Ok::<
                SelectorView,
                FailureView,
            >(SelectorView::Label(label->0))
            &&& name is None && label is None && id && !aim ==> selector_of(args) == Ok::<
                SelectorView,
                FailureView,
            >(SelectorView::Id(n as int))
            &&& name is None && label is None && !id && aim ==> selector_of(args) == Ok::<
                SelectorView,
                FailureView,
            >(SelectorView::Crosshair)
            &&& name is Some && label is Some ==> (selector_of(args) matches Err(failure)
                && failure.code == "ONE_SELECTOR"@)
            &&& id && aim ==> (selector_of(args) matches Err(failure) && failure.code
                == "ONE_SELECTOR"@)
            &&& name is None && label is None && !id && !aim ==> (selector_of(args) matches Err(
                failure,
            ) && failure.code == "ONE_SELECTOR"@)
        }),
{
}

/// What a search finds is in range and answers to the query where there is one, no more of it than
/// was asked for.
pub proof fn a_search_finds_what_is_in_range(
    entities: Seq<Seen>,
    query: Option<Seq<char>>,
    count: int,
    n: int,
)
    requires
        0 <= n < entities.len(),
        0 <= count,
    ensures
        finds(entities, query, count, 0).len() == 0,
        finds(entities, query, count, n).len() <= count,
        ({
            let fits = entities[n].distance.in_range && (query matches Some(query)
                ==> entities[n].answers(query));
            &&& fits && finds(entities, query, count, n).len() < count ==> finds(
                entities,
                query,
                count,
                n + 1,
            ).len() == finds(entities, query, count, n).len() + 1
            &&& !fits ==> finds(entities, query, count, n + 1) == finds(entities, query, count, n)
        }),
        INTERVAL_TICKS == 10,
    decreases n,
{
    if n > 0 {
        a_search_finds_what_is_in_range(entities, query, count, n - 1);
    }
}

/// What is said of an assault that was given up: how often it landed out of how often it was asked for.
pub proof fn an_assault_says_how_often_it_landed(assault: Assault, why: Seq<char>, name: Seq<char>, seen: Seen)
    ensures
        gave_up(assault, why).text == "Hit "@ + assault.label@ + " "@ + dec(assault.landed as int)
            + " time(s) out of "@ + dec(assault.times as int) + why,
        away(name, seen) == name + " ("@ + seen.distance.text@ + " blocks away)"@,
        MAX_LISTED == 5,
{
}

/// What is listed in a refusal is in range, and no more than five of it.
pub proof fn what_is_listed_is_in_range(entities: Seq<Seen>, n: int)
    requires
        0 <= n < entities.len(),
    ensures
        in_range_list(entities, 0).len() == 0,
        in_range_list(entities, n).len() <= 5,
        !entities[n].distance.in_range ==> in_range_list(entities, n + 1) == in_range_list(entities, n),
        entities[n].distance.in_range && in_range_list(entities, n).len() < 5 ==> in_range_list(
            entities,
            n + 1,
        ) == in_range_list(entities, n).push(away(entities[n].label@, entities[n])),
        labels_in_range(entities, n).len() <= 5,
        !entities[n].distance.in_range || entities[n].reading() is None ==> labels_in_range(
            entities,
            n + 1,
        ) == labels_in_range(entities, n),
        entities[n].reading() matches Some(said) ==> (entities[n].distance.in_range && labels_in_range(
            entities,
            n,
        ).len() < 5 ==> labels_in_range(entities, n + 1) == labels_in_range(entities, n).push(
            away(said, entities[n]),
        )),
    decreases n,
{
    if n > 0 {
        what_is_listed_is_in_range(entities, n - 1);
    }
}

/// What stands under a label can be its own where a player could click it: no display, no label, and
/// not the label itself.
pub proof fn a_label_is_claimed_by_what_can_be_clicked(label: Seen, other: Seen)
    ensures
        other.handle == label.handle || other.display || other.says is Some || !other.pickable
            ==> claim(label, other) is None,
        other.handle != label.handle && !other.display && other.says is None && other.pickable
            ==> claim(label, other) == number_under(label.under@, other.handle),
{
}

/// What a player could click: an interaction, a boat, a minecart that stands, and what lives and is no
/// marker.
pub proof fn what_a_player_could_click(kept: Kept)
    ensures
        kept.interaction ==> pickable_of(kept),
        kept.boat ==> pickable_of(kept),
        kept.minecart && !kept.dead ==> pickable_of(kept),
        kept.living && !kept.dead && !kept.marker ==> pickable_of(kept),
        kept.dead && !kept.interaction && !kept.boat ==> !pickable_of(kept),
        kept.marker && !kept.interaction && !kept.boat && !kept.minecart ==> !pickable_of(kept),
        !kept.interaction && !kept.boat && !kept.minecart && !kept.living ==> !pickable_of(kept),
{
}

} // verus!
