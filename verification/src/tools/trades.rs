//! Trading: what a villager offers, and picking one of the offers.
use vstd::prelude::*;

use crate::calls::{Answer, AnswerView, Failure, FailureView};
use crate::json::{a_field_reads_back, an_empty_object_has_nothing, docs, Doc, Json};
use crate::menus::{Known, Offer, Offers};
use crate::tools::stacks::{
    answers, counted, held, held_of, needle, needle_of, shown_as, shown_name, Stack,
};
use crate::tools::windows::{screen, screen_name, Menu, Window};
use crate::words::{
    cat2, cat5, cat6, dec, decimal, equals_ignoring_case, join, joined, lowercase, lowercase_of,
    letters, natural_value, occurs, parse_u64, same, same_but_case, signed, signs_are_no_digits,
    texts, contains,
};

verus! {

/// The merchant menu's own layout: two payment slots, then the result, then the inventory.
pub const PAYMENT_A: usize = 0;

pub const PAYMENT_B: usize = 1;

pub const RESULT: usize = 2;

/// What is said when the trading screen is not what is shown.
pub open spec fn no_trades(window: Option<&Window>, book: bool) -> FailureView {
    let showing = match window {
        Some(window) => Some(screen_name(window.menu)),
        None => if book {
            Some("BookViewScreen"@)
        } else {
            None
        },
    };
    FailureView::refusal(
        "NO_TRADES"@,
        match showing {
            None =>
                "no trading screen is open. Use interact-entity on a villager or a wandering trader, then wait-for-window."@,
            Some(screen) => screen + " is open, and it is not a trading screen."@,
        },
    )
}

/// The trading screen and the offers the server sent for it. The offers come in a packet of their
/// own a moment after the window, so a screen read in that moment is open with none.
pub fn require<'a>(window: Option<&'a Window>, book: bool, offers: Option<&'a Offers>) -> (r: Result<
    (&'a Window, Option<&'a Offers>),
    Failure,
>)
    ensures
        match r {
            Ok((shown, sent)) => {
                &&& window == Some(shown)
                &&& shown.menu == Menu::Merchant
                &&& match sent {
                    Some(sent) => offers == Some(sent) && sent.container_id == shown.id,
                    None => offers matches Some(others) ==> others.container_id != shown.id,
                }
            },
            Err(failure) => {
                &&& window matches Some(shown) ==> shown.menu != Menu::Merchant
                &&& failure@ == no_trades(window, book)
            },
        },
{
    match window {
        Some(window) => {
            if window.menu == Menu::Merchant {
                let sent = match offers {
                    Some(offers) => if offers.container_id == window.id {
                        Some(offers)
                    } else {
                        None
                    },
                    None => None,
                };
                return Ok((window, sent));
            }
            Err(
                Failure::refused(
                    "NO_TRADES",
                    cat2(screen(window.menu), " is open, and it is not a trading screen."),
                ),
            )
        },
        None => {
            if book {
                Err(
                    Failure::refused(
                        "NO_TRADES",
                        cat2("BookViewScreen", " is open, and it is not a trading screen."),
                    ),
                )
            } else {
                Err(
                    Failure::refused(
                        "NO_TRADES",
                        "no trading screen is open. Use interact-entity on a villager or a wandering trader, then wait-for-window.".to_owned(),
                    ),
                )
            }
        },
    }
}

impl Offer {
    /// What an item's own limit keeps to: a slot takes at least one of it.
    pub open spec fn valid(&self) -> bool {
        1 <= self.max_stack
    }

    /// How many of the first price the payment slot will take: the base count with demand and the
    /// player's reputation applied, no fewer than one and no more than go in one slot.
    pub open spec fn price(&self) -> int {
        let count = self.base_cost_a.count + self.demand_price + self.special_price_diff;
        if count < 1 {
            1
        } else if count > self.max_stack {
            self.max_stack as int
        } else {
            count
        }
    }

    pub fn cost_a(&self) -> (r: i32)
        requires
            self.valid(),
        ensures
            r == self.price(),
            1 <= r <= self.max_stack,
    {
        let count: i64 = self.base_cost_a.count as i64 + self.demand_price as i64
            + self.special_price_diff as i64;
        if count < 1 {
            1
        } else if count > self.max_stack as i64 {
            self.max_stack
        } else {
            count as i32
        }
    }

    /// The first price as a stack, where there is one at all.
    pub open spec fn price_doc(&self) -> Doc {
        if self.base_cost_a.count <= 0 || self.base_cost_a.name@ == "air"@ {
            Doc::Null
        } else {
            held_of(Some(Stack { count: self.price() as i32, ..self.base_cost_a }))
        }
    }

    pub open spec fn is_out(&self) -> bool {
        self.out_of_stock || self.uses >= self.max_uses
    }

    /// A client marks an offer out of stock by using it up, whichever way the server said so.
    pub fn out_of_stock(&self) -> (r: bool)
        ensures
            r == self.is_out(),
    {
        self.out_of_stock || self.uses >= self.max_uses
    }

    pub open spec fn used(&self) -> i32 {
        if self.out_of_stock {
            self.max_uses
        } else {
            self.uses
        }
    }

    pub fn uses(&self) -> (r: i32)
        ensures
            r == self.used(),
    {
        if self.out_of_stock {
            self.max_uses
        } else {
            self.uses
        }
    }
}

/// An offer is out of stock exactly where its uses are used up.
pub proof fn out_of_stock_is_used_up(offer: Offer)
    ensures
        offer.is_out() == (offer.used() >= offer.max_uses),
{
}

/// What an enchantment is called, by its number in the registry.
pub open spec fn enchantment_name(known: Option<&Known>, id: u32) -> Seq<char> {
    match known {
        Some(known) => match known.entry_of("minecraft:enchantment"@, id as int) {
            Some(entry) => entry.path@,
            None => "unknown"@,
        },
        None => "unknown"@,
    }
}

pub open spec fn enchantment_docs(stack: Option<Stack>, known: Option<&Known>) -> Seq<Doc> {
    match stack {
        Some(stack) => Seq::new(
            stack.enchantments@.len(),
            |i: int|
                Doc::object().with(
                    "name"@,
                    Doc::Text(enchantment_name(known, stack.enchantments@[i].0)),
                ).with("level"@, Doc::number(stack.enchantments@[i].1 as int)),
        ),
        None => Seq::empty(),
    }
}

/// A librarian sells a dozen enchanted books that read "enchanted_book x1" alike; which book is the
/// whole trade. A book stores them apart from what an enchanted tool carries, so both.
pub fn enchantments(stack: &Option<Stack>, known: Option<&Known>) -> (r: Vec<Json>)
    ensures
        docs(r@) == enchantment_docs(*stack, known),
{
    let mut out: Vec<Json> = Vec::new();
    match stack {
        None => {},
        Some(held) => {
            let mut i: usize = 0;
            while i < held.enchantments.len()
                invariant
                    i <= held.enchantments@.len(),
                    *stack == Some(*held),
                    out@.len() == i,
                    forall|k: int|
                        0 <= k < i ==> (#[trigger] out@[k])@ == enchantment_docs(*stack, known)[k],
                decreases held.enchantments@.len() - i,
            {
                let (id, level) = held.enchantments[i];
                let name: String = match known {
                    Some(known) => match known.entry("minecraft:enchantment", id as usize) {
                        Some(entry) => entry.path.clone(),
                        None => "unknown".to_owned(),
                    },
                    None => "unknown".to_owned(),
                };
                out.push(
                    Json::object().with("name", Json::Text(name)).with(
                        "level",
                        Json::number(level as i64),
                    ),
                );
                i += 1;
            }
        },
    }
    proof {
        assert(docs(out@) =~= enchantment_docs(*stack, known));
    }
    out
}

pub open spec fn offer_doc(offer: Offer, number: int, known: Option<&Known>) -> Doc {
    Doc::object().with("number"@, Doc::number(number)).with("costA"@, offer.price_doc()).with(
        "baseCountA"@,
        Doc::number(offer.base_cost_a.count as int),
    ).with("costB"@, held_of(offer.cost_b)).with("result"@, held_of(offer.result)).with(
        "enchantments"@,
        Doc::list(enchantment_docs(offer.result, known)),
    ).with("uses"@, Doc::number(offer.used() as int)).with(
        "maxUses"@,
        Doc::number(offer.max_uses as int),
    ).with("outOfStock"@, Doc::Bool(offer.is_out())).with("xp"@, Doc::number(offer.xp as int))
}

pub fn describe(offer: &Offer, number: usize, known: Option<&Known>) -> (r: Json)
    requires
        offer.valid(),
    ensures
        r@ == offer_doc(*offer, number as int, known),
{
    let first = if offer.base_cost_a.count <= 0 || same(offer.base_cost_a.name.as_str(), "air") {
        Json::Null
    } else {
        counted(&offer.base_cost_a, offer.cost_a())
    };
    Json::object().with("number", Json::count(number as u64)).with("costA", first).with(
        "baseCountA",
        Json::number(offer.base_cost_a.count as i64),
    ).with("costB", held(&offer.cost_b)).with("result", held(&offer.result)).with(
        "enchantments",
        Json::list(enchantments(&offer.result, known)),
    ).with("uses", Json::number(offer.uses() as i64)).with(
        "maxUses",
        Json::number(offer.max_uses as i64),
    ).with("outOfStock", Json::Bool(offer.out_of_stock())).with("xp", Json::number(offer.xp as i64))
}

pub open spec fn offer_docs(offers: Seq<Offer>, known: Option<&Known>) -> Seq<Doc> {
    Seq::new(offers.len(), |i: int| offer_doc(offers[i], i + 1, known))
}

/// Whether every offer of a list is one the game can make.
pub open spec fn all_valid(offers: Seq<Offer>) -> bool {
    forall|i: int| 0 <= i < offers.len() ==> (#[trigger] offers[i]).valid()
}

/// What read-trades answers. A wandering trader is sent a level too, and the screen hides it because
/// the progress bar is off. Both go, so the server can do what the screen does.
pub fn read_trades(window: &Window, offers: Option<&Offers>, known: Option<&Known>) -> (r: Answer)
    requires
        offers matches Some(sent) ==> all_valid(sent.offers@),
    ensures
        r@ == AnswerView::full(
            "read-trades"@,
            Doc::object().with("title"@, Doc::Text(window.title@.words())).with(
                "titleComponent"@,
                window.title@,
            ).with(
                "level"@,
                Doc::number(
                    match offers {
                        Some(sent) => sent.villager_level as int,
                        None => 0,
                    },
                ),
            ).with(
                "xp"@,
                Doc::number(
                    match offers {
                        Some(sent) => sent.villager_xp as int,
                        None => 0,
                    },
                ),
            ).with(
                "showProgressBar"@,
                Doc::Bool(
                    match offers {
                        Some(sent) => sent.show_progress,
                        None => false,
                    },
                ),
            ).with(
                "canRestock"@,
                Doc::Bool(
                    match offers {
                        Some(sent) => sent.can_restock,
                        None => false,
                    },
                ),
            ).with(
                "trades"@,
                Doc::list(
                    match offers {
                        Some(sent) => offer_docs(sent.offers@, known),
                        None => Seq::empty(),
                    },
                ),
            ),
        ),
{
    let mut trades: Vec<Json> = Vec::new();
    let mut level: u64 = 0;
    let mut xp: u64 = 0;
    let mut progress: bool = false;
    let mut restock: bool = false;
    match offers {
        None => {
            proof {
                assert(docs(trades@) =~= Seq::<Doc>::empty());
            }
        },
        Some(sent) => {
            level = sent.villager_level as u64;
            xp = sent.villager_xp as u64;
            progress = sent.show_progress;
            restock = sent.can_restock;
            let mut i: usize = 0;
            while i < sent.offers.len()
                invariant
                    i <= sent.offers@.len(),
                    all_valid(sent.offers@),
                    trades@.len() == i,
                    forall|k: int|
                        0 <= k < i ==> (#[trigger] trades@[k])@ == offer_docs(
                            sent.offers@,
                            known,
                        )[k],
                decreases sent.offers@.len() - i,
            {
                trades.push(describe(&sent.offers[i], i + 1, known));
                i += 1;
            }
            proof {
                assert(docs(trades@) =~= offer_docs(sent.offers@, known));
            }
        },
    }
    Answer::data(
        "read-trades".to_owned(),
        Json::object().with("title", Json::Text(window.title.words())).with(
            "titleComponent",
            window.title.copy(),
        ).with("level", Json::count(level)).with("xp", Json::count(xp)).with(
            "showProgressBar",
            Json::Bool(progress),
        ).with("canRestock", Json::Bool(restock)).with("trades", Json::list(trades)),
    )
}

/// The item an offer gives, by its registry path. Nothing at all is air.
pub open spec fn given_name(offer: Offer) -> Seq<char> {
    match offer.result {
        Some(stack) => stack.name@,
        None => "air"@,
    }
}

/// The item an offer gives, as it is shown.
pub open spec fn given_shown(offer: Offer) -> Seq<char> {
    match offer.result {
        Some(stack) => shown_name(stack),
        None => "air"@,
    }
}

pub open spec fn given_count(offer: Offer) -> int {
    match offer.result {
        Some(stack) => stack.count as int,
        None => 0,
    }
}

/// Whether what an offer gives is named exactly.
pub open spec fn exactly(offer: Offer, query: Seq<char>) -> bool {
    given_name(offer) == needle_of(query) || same_but_case(given_shown(offer), query)
}

/// Whether what an offer gives is named in part.
pub open spec fn partly(offer: Offer, query: Seq<char>) -> bool {
    !exactly(offer, query) && match offer.result {
        Some(stack) => answers(stack, query),
        None => occurs("air"@, needle_of(query)) || occurs(lowercase_of("air"@), needle_of(query)),
    }
}

/// The places among the first `n` offers whose offers are named exactly, or in part.
pub open spec fn named_at(offers: Seq<Offer>, query: Seq<char>, exact: bool, n: int) -> Seq<int>
    decreases n,
{
    if n <= 0 {
        Seq::empty()
    } else {
        let before = named_at(offers, query, exact, n - 1);
        let offer = offers[n - 1];
        if if exact {
            exactly(offer, query)
        } else {
            partly(offer, query)
        } {
            before.push(n - 1)
        } else {
            before
        }
    }
}

/// The number of a trade, where the query is one: no more than three digits.
pub open spec fn place_number(query: Seq<char>) -> Option<int> {
    if query.len() <= 3 {
        natural_value(query)
    } else {
        None
    }
}

/// The offers at some places, as a sentence lists them.
pub open spec fn listed(offers: Seq<Offer>, places: Seq<int>) -> Seq<Seq<char>> {
    Seq::new(
        places.len(),
        |i: int|
            dec(places[i] + 1) + ". "@ + given_shown(offers[places[i]]) + " x"@ + dec(
                given_count(offers[places[i]]),
            ),
    )
}

pub open spec fn all_places(n: int) -> Seq<int> {
    Seq::new(n as nat, |i: int| i)
}

/// The offers that a name is of: those it names exactly, or else those it names in part.
pub open spec fn found_of(offers: Seq<Offer>, query: Seq<char>) -> Seq<int> {
    let exact = named_at(offers, query, true, offers.len() as int);
    if exact.len() > 0 {
        exact
    } else {
        named_at(offers, query, false, offers.len() as int)
    }
}

/// The place of the trade that is asked for, or what is said instead.
pub open spec fn picked(offers: Seq<Offer>, query: Seq<char>) -> Result<int, FailureView> {
    match place_number(query) {
        Some(number) => if number < 1 || number > offers.len() {
            Err(
                FailureView::refusal(
                    "NO_SUCH_TRADE"@,
                    "there is no trade "@ + dec(number) + "; this screen lists "@ + dec(
                        offers.len() as int,
                    ) + ", numbered from 1."@,
                ),
            )
        } else {
            Ok(number - 1)
        },
        None => {
            let found = found_of(offers, query);
            if found.len() == 1 {
                Ok(found[0])
            } else if found.len() == 0 {
                Err(
                    FailureView::refusal(
                        "NO_SUCH_TRADE"@,
                        "no trade gives \""@ + query + "\". This screen sells "@ + joined(
                            listed(offers, all_places(offers.len() as int)),
                            ", "@,
                        ) + "."@,
                    ),
                )
            } else {
                Err(
                    FailureView::refusal(
                        "AMBIGUOUS_TRADE"@,
                        dec(found.len() as int) + " trades give \""@ + query + "\": "@ + joined(
                            listed(offers, found),
                            ", "@,
                        ) + ". Pick one by its number."@,
                    ),
                )
            }
        },
    }
}

proof fn three_digits_are_small(s: Seq<char>)
    requires
        s.len() <= 3,
    ensures
        natural_value(s) matches Some(n) ==> 0 <= n <= 999,
{
    reveal_with_fuel(natural_value, 4);
}

fn number_in(query: &str) -> (r: Option<usize>)
    ensures
        match r {
            Some(n) => place_number(query@) == Some(n as int),
            None => place_number(query@) is None,
        },
{
    let all = letters(query);
    if all.len() == 0 || all.len() > 3 {
        return None;
    }
    proof {
        three_digits_are_small(query@);
    }
    if all[0] == '+' {
        proof {
            signs_are_no_digits(query@);
        }
        return None;
    }
    match parse_u64(query) {
        Some(n) => Some(n as usize),
        None => None,
    }
}

fn is_exactly(offer: &Offer, query: &str) -> (r: bool)
    ensures
        r == exactly(*offer, query@),
{
    let wanted = needle(query);
    match &offer.result {
        Some(stack) => same(stack.name.as_str(), wanted.as_str()) || equals_ignoring_case(
            shown_as(stack).as_str(),
            query,
        ),
        None => same("air", wanted.as_str()) || equals_ignoring_case("air", query),
    }
}

fn is_partly(offer: &Offer, query: &str) -> (r: bool)
    ensures
        r == partly(*offer, query@),
{
    if is_exactly(offer, query) {
        return false;
    }
    match &offer.result {
        Some(stack) => crate::tools::stacks::matches(stack, query),
        None => {
            let wanted = needle(query);
            contains("air", wanted.as_str()) || contains(
                lowercase("air").as_str(),
                wanted.as_str(),
            )
        },
    }
}

fn list(offers: &Vec<Offer>, places: &Vec<usize>) -> (r: String)
    requires
        forall|i: int| 0 <= i < places@.len() ==> (#[trigger] places@[i]) < offers@.len(),
    ensures
        r@ == joined(listed(offers@, crate::hud::ints(places@)), ", "@),
{
    let mut out: Vec<String> = Vec::new();
    let mut i: usize = 0;
    while i < places.len()
        invariant
            i <= places@.len(),
            forall|k: int| 0 <= k < places@.len() ==> (#[trigger] places@[k]) < offers@.len(),
            out@.len() == i,
            forall|k: int|
                0 <= k < i ==> (#[trigger] out@[k])@ == listed(
                    offers@,
                    crate::hud::ints(places@),
                )[k],
        decreases places@.len() - i,
    {
        let at: usize = places[i];
        let count: usize = offers.len();
        let offer = &offers[at];
        let (shown, held) = match &offer.result {
            Some(stack) => (shown_as(stack), stack.count),
            None => ("air".to_owned(), 0),
        };
        let line = cat5(
            decimal(at as u64 + 1).as_str(),
            ". ",
            shown.as_str(),
            " x",
            signed(held as i64).as_str(),
        );
        proof {
            assert(crate::hud::ints(places@)[i as int] == at as int);
        }
        out.push(line);
        i += 1;
    }
    proof {
        assert(texts(out@) =~= listed(offers@, crate::hud::ints(places@)));
    }
    join(&out, ", ")
}

/// A number is the trade's place in the list. Anything else names what the trade gives, exactly
/// first: a villager that buys wheat, potatoes and carrots gives emeralds for all three, and
/// "emerald" picking whichever came first would be a trade nobody asked for.
pub fn pick(offers: &Vec<Offer>, query: &str) -> (r: Result<usize, Failure>)
    ensures
        match r {
            Ok(at) => picked(offers@, query@) == Ok::<int, FailureView>(at as int) && at
                < offers@.len(),
            Err(failure) => picked(offers@, query@) == Err::<int, FailureView>(failure@),
        },
{
    let count: usize = offers.len();
    if let Some(number) = number_in(query) {
        if number < 1 || number > offers.len() {
            return Err(
                Failure::refused(
                    "NO_SUCH_TRADE",
                    cat5(
                        "there is no trade ",
                        decimal(number as u64).as_str(),
                        "; this screen lists ",
                        decimal(offers.len() as u64).as_str(),
                        ", numbered from 1.",
                    ),
                ),
            );
        }
        return Ok(number - 1);
    }
    let mut exact: Vec<usize> = Vec::new();
    let mut partial: Vec<usize> = Vec::new();
    let mut all: Vec<usize> = Vec::new();
    let mut i: usize = 0;
    proof {
        assert(crate::hud::ints(exact@) =~= Seq::<int>::empty());
        assert(all_places(0) =~= Seq::<int>::empty());
    }
    while i < offers.len()
        invariant
            i <= offers@.len(),
            crate::hud::ints(exact@) == named_at(offers@, query@, true, i as int),
            crate::hud::ints(partial@) == named_at(offers@, query@, false, i as int),
            crate::hud::ints(all@) == all_places(i as int),
            forall|k: int| 0 <= k < exact@.len() ==> (#[trigger] exact@[k]) < i,
            forall|k: int| 0 <= k < partial@.len() ==> (#[trigger] partial@[k]) < i,
            forall|k: int| 0 <= k < all@.len() ==> (#[trigger] all@[k]) < i,
        decreases offers@.len() - i,
    {
        let ghost before = exact@;
        let ghost some = partial@;
        if is_exactly(&offers[i], query) {
            exact.push(i);
            proof {
                assert(crate::hud::ints(exact@) =~= crate::hud::ints(before).push(i as int));
            }
        } else if is_partly(&offers[i], query) {
            partial.push(i);
            proof {
                assert(crate::hud::ints(partial@) =~= crate::hud::ints(some).push(i as int));
            }
        }
        let ghost places = all@;
        all.push(i);
        proof {
            assert(crate::hud::ints(all@) =~= crate::hud::ints(places).push(i as int));
            assert(all_places(i + 1) =~= all_places(i as int).push(i as int));
        }
        i += 1;
    }
    let found = if exact.len() > 0 {
        exact
    } else {
        partial
    };
    proof {
        assert(crate::hud::ints(found@) == found_of(offers@, query@));
        assert(crate::hud::ints(found@).len() == found@.len());
    }
    if found.len() == 1 {
        proof {
            assert(crate::hud::ints(found@)[0] == found@[0] as int);
        }
        return Ok(found[0]);
    }
    if found.len() == 0 {
        return Err(
            Failure::refused(
                "NO_SUCH_TRADE",
                cat5(
                    "no trade gives \"",
                    query,
                    "\". This screen sells ",
                    list(offers, &all).as_str(),
                    ".",
                ),
            ),
        );
    }
    Err(
        Failure::refused(
            "AMBIGUOUS_TRADE",
            cat6(
                decimal(found.len() as u64).as_str(),
                " trades give \"",
                query,
                "\": ",
                list(offers, &found).as_str(),
                ". Pick one by its number.",
            ),
        ),
    )
}

/// The trade that is asked for on the screen, or what is said instead: the offers may not be there
/// yet.
pub fn choose_trade(offers: Option<&Offers>, query: &str) -> (r: Result<usize, Failure>)
    ensures
        match offers {
            Some(sent) => if sent.offers@.len() > 0 {
                match r {
                    Ok(at) => picked(sent.offers@, query@) == Ok::<int, FailureView>(at as int)
                        && at < sent.offers@.len(),
                    Err(failure) => picked(sent.offers@, query@) == Err::<int, FailureView>(
                        failure@,
                    ),
                }
            } else {
                r matches Err(failure) && failure@ == no_trades_yet()
            },
            None => r matches Err(failure) && failure@ == no_trades_yet(),
        },
{
    if let Some(sent) = offers {
        if sent.offers.len() > 0 {
            return pick(&sent.offers, query);
        }
    }
    Err(
        Failure::refused(
            "NO_TRADES_YET",
            "the trading screen lists no trades yet. They arrive a moment after it opens: wait a few ticks and read-trades.".to_owned(),
        ),
    )
}

pub open spec fn no_trades_yet() -> FailureView {
    FailureView::refusal(
        "NO_TRADES_YET"@,
        "the trading screen lists no trades yet. They arrive a moment after it opens: wait a few ticks and read-trades."@,
    )
}

/// What lies in a slot, where there is such a slot.
pub open spec fn slot_doc(slots: Seq<Option<Stack>>, at: int) -> Doc {
    if 0 <= at < slots.len() {
        held_of(slots[at])
    } else {
        Doc::Null
    }
}

fn in_slot(slots: &Vec<Option<Stack>>, at: usize) -> (r: Json)
    ensures
        r@ == slot_doc(slots@, at as int),
{
    if at < slots.len() {
        held(&slots[at])
    } else {
        Json::Null
    }
}

/// What select-trade answers. Picking is not trading: the server moves the price into the payment
/// slots and fills the result from them, and the slots read afterwards say whether it could.
pub fn selected(
    offer: &Offer,
    number: usize,
    known: Option<&Known>,
    slots: &Vec<Option<Stack>>,
) -> (r: Answer)
    requires
        offer.valid(),
    ensures
        r@ == AnswerView::full(
            "select-trade"@,
            Doc::object().with("trade"@, offer_doc(*offer, number as int, known)).with(
                "paymentA"@,
                slot_doc(slots@, 0),
            ).with("paymentB"@, slot_doc(slots@, 1)).with("result"@, slot_doc(slots@, 2)),
        ),
{
    Answer::data(
        "select-trade".to_owned(),
        Json::object().with("trade", describe(offer, number, known)).with(
            "paymentA",
            in_slot(slots, PAYMENT_A),
        ).with("paymentB", in_slot(slots, PAYMENT_B)).with("result", in_slot(slots, RESULT)),
    )
}

proof fn named_places(offers: Seq<Offer>, query: Seq<char>, exact: bool, n: int, i: int)
    requires
        0 <= n <= offers.len(),
        0 <= i < named_at(offers, query, exact, n).len(),
    ensures
        0 <= named_at(offers, query, exact, n)[i] < n,
        exact ==> exactly(offers[named_at(offers, query, exact, n)[i]], query),
        !exact ==> partly(offers[named_at(offers, query, exact, n)[i]], query),
    decreases n,
{
    if n > 0 && i < named_at(offers, query, exact, n - 1).len() {
        named_places(offers, query, exact, n - 1, i);
    }
}

proof fn nothing_left_out(offers: Seq<Offer>, query: Seq<char>, exact: bool, n: int, at: int)
    requires
        0 <= at < n <= offers.len(),
        exact ==> exactly(offers[at], query),
        !exact ==> partly(offers[at], query),
    ensures
        named_at(offers, query, exact, n).contains(at),
    decreases n,
{
    let all = named_at(offers, query, exact, n);
    let before = named_at(offers, query, exact, n - 1);
    if at < n - 1 {
        nothing_left_out(offers, query, exact, n - 1, at);
        let i = before.index_of(at);
        assert(all[i] == at);
    } else {
        assert(all[all.len() - 1] == at);
    }
}

/// A name picks a trade only where no other trade answers to it as well: of the trades it names
/// exactly there is just the one, or it names none exactly and just the one in part.
pub proof fn a_name_picks_the_only_trade(offers: Seq<Offer>, query: Seq<char>, at: int, other: int)
    requires
        place_number(query) is None,
        picked(offers, query) == Ok::<int, FailureView>(at),
        0 <= other < offers.len(),
        other != at,
    ensures
        !exactly(offers[other], query),
        exactly(offers[at], query) || (partly(offers[at], query) && !partly(offers[other], query)),
{
    let n = offers.len() as int;
    let found = found_of(offers, query);
    let exact = named_at(offers, query, true, n);
    named_places(offers, query, exact.len() > 0, n, 0);
    if exactly(offers[other], query) {
        nothing_left_out(offers, query, true, n, other);
        assert(exact[exact.index_of(other)] == other);
    }
    if exact.len() == 0 && partly(offers[other], query) {
        nothing_left_out(offers, query, false, n, other);
        assert(found[found.index_of(other)] == other);
    }
}

/// What is told of an offer, field by field: its number, both prices, what it gives and what that
/// carries, how often it was used of how often it may be, and whether it is out of stock.
pub proof fn an_offer_is_told_as_it_stands(offer: Offer, number: int, known: Option<&Known>)
    requires
        offer.valid(),
    ensures
        ({
            let told = offer_doc(offer, number, known);
            &&& told.at("number"@) == Some(Doc::number(number))
            &&& told.at("baseCountA"@) == Some(Doc::number(offer.base_cost_a.count as int))
            &&& told.at("costB"@) == Some(held_of(offer.cost_b))
            &&& told.at("result"@) == Some(held_of(offer.result))
            &&& told.items_at("enchantments"@) == Some(enchantment_docs(offer.result, known))
            &&& told.at("maxUses"@) == Some(Doc::number(offer.max_uses as int))
            &&& told.at("xp"@) == Some(Doc::number(offer.xp as int))
            &&& told.bool_at("outOfStock"@) == Some(offer.out_of_stock || offer.uses >= offer.max_uses)
            &&& told.at("uses"@) == Some(
                Doc::number(
                    if offer.out_of_stock {
                        offer.max_uses as int
                    } else {
                        offer.uses as int
                    },
                ),
            )
            &&& offer.base_cost_a.count <= 0 ==> told.at("costA"@) == Some(Doc::Null)
        }),
{
    broadcast use {a_field_reads_back, an_empty_object_has_nothing};
    reveal_strlit("number");
    reveal_strlit("costA");
    reveal_strlit("baseCountA");
    reveal_strlit("costB");
    reveal_strlit("result");
    reveal_strlit("enchantments");
    reveal_strlit("uses");
    reveal_strlit("maxUses");
    reveal_strlit("outOfStock");
    reveal_strlit("xp");
    assert("number"@.len() == 6);
    assert("costA"@.len() == 5);
    assert("baseCountA"@.len() == 10);
    assert("costB"@.len() == 5);
    assert("result"@.len() == 6);
    assert("enchantments"@.len() == 12);
    assert("uses"@.len() == 4);
    assert("maxUses"@.len() == 7);
    assert("outOfStock"@.len() == 10);
    assert("xp"@.len() == 2);
    assert("number"@[0] != "result"@[0]);
    assert("costA"@[4] != "costB"@[4]);
    assert("baseCountA"@[0] != "outOfStock"@[0]);
}

/// The first price: what the base count comes to with the two changes on it, but at least one and at
/// most what goes in one slot. Nothing is told of it where the offer has no first price.
pub proof fn the_first_price_is_told_as_it_is_paid(offer: Offer, number: int, known: Option<&Known>)
    requires
        offer.valid(),
    ensures
        ({
            let whole = offer.base_cost_a.count + offer.demand_price + offer.special_price_diff;
            let told = offer_doc(offer, number, known).at("costA"@)->0;
            &&& 1 <= offer.price() <= offer.max_stack
            &&& 1 <= whole <= offer.max_stack ==> offer.price() == whole
            &&& whole < 1 ==> offer.price() == 1
            &&& whole > offer.max_stack ==> offer.price() == offer.max_stack
            &&& offer.base_cost_a.count > 0 && offer.base_cost_a.name@ != "air"@ ==> {
                &&& told.at("name"@) == Some(Doc::Text(offer.base_cost_a.name@))
                &&& told.at("count"@) == Some(Doc::number(offer.price()))
            }
            &&& offer.base_cost_a.name@ == "air"@ ==> told == Doc::Null
        }),
{
    broadcast use {a_field_reads_back, an_empty_object_has_nothing};
    reveal_strlit("number");
    reveal_strlit("costA");
    reveal_strlit("baseCountA");
    reveal_strlit("costB");
    reveal_strlit("result");
    reveal_strlit("enchantments");
    reveal_strlit("uses");
    reveal_strlit("maxUses");
    reveal_strlit("outOfStock");
    reveal_strlit("xp");
    reveal_strlit("name");
    reveal_strlit("count");
    reveal_strlit("label");
    reveal_strlit("labelComponent");
    reveal_strlit("lore");
    reveal_strlit("loreComponents");
    assert("number"@.len() == 6);
    assert("costA"@.len() == 5);
    assert("baseCountA"@.len() == 10);
    assert("costB"@.len() == 5);
    assert("result"@.len() == 6);
    assert("enchantments"@.len() == 12);
    assert("uses"@.len() == 4);
    assert("maxUses"@.len() == 7);
    assert("outOfStock"@.len() == 10);
    assert("xp"@.len() == 2);
    assert("name"@.len() == 4);
    assert("count"@.len() == 5);
    assert("label"@.len() == 5);
    assert("labelComponent"@.len() == 14);
    assert("lore"@.len() == 4);
    assert("loreComponents"@.len() == 14);
    assert("number"@[0] != "result"@[0]);
    assert("costA"@[4] != "costB"@[4]);
    assert("costA"@[2] != "count"@[2]);
    assert("costA"@[0] != "label"@[0]);
    assert("baseCountA"@[0] != "outOfStock"@[0]);
    assert("costB"@[2] != "count"@[2]);
    assert("costB"@[0] != "label"@[0]);
    assert("uses"@[0] != "name"@[0]);
    assert("uses"@[0] != "lore"@[0]);
    assert("name"@[0] != "lore"@[0]);
    assert("count"@[0] != "label"@[0]);
    assert("labelComponent"@[1] != "loreComponents"@[1]);
}

/// The offers are told in order, numbered from one, each as it stands.
pub proof fn every_offer_is_told_once(offers: Seq<Offer>, known: Option<&Known>, i: int)
    requires
        0 <= i < offers.len(),
    ensures
        offer_docs(offers, known).len() == offers.len(),
        offer_docs(offers, known)[i].at("number"@) == Some(Doc::number(i + 1)),
        offer_docs(offers, known)[i].at("result"@) == Some(held_of(offers[i].result)),
        offer_docs(offers, known)[i].at("costB"@) == Some(held_of(offers[i].cost_b)),
{
    broadcast use {a_field_reads_back, an_empty_object_has_nothing};
    reveal_strlit("number");
    reveal_strlit("costA");
    reveal_strlit("baseCountA");
    reveal_strlit("costB");
    reveal_strlit("result");
    reveal_strlit("enchantments");
    reveal_strlit("uses");
    reveal_strlit("maxUses");
    reveal_strlit("outOfStock");
    reveal_strlit("xp");
    assert("number"@.len() == 6);
    assert("costA"@.len() == 5);
    assert("baseCountA"@.len() == 10);
    assert("costB"@.len() == 5);
    assert("result"@.len() == 6);
    assert("enchantments"@.len() == 12);
    assert("uses"@.len() == 4);
    assert("maxUses"@.len() == 7);
    assert("outOfStock"@.len() == 10);
    assert("xp"@.len() == 2);
    assert("number"@[0] != "result"@[0]);
    assert("costA"@[4] != "costB"@[4]);
    assert("baseCountA"@[0] != "outOfStock"@[0]);
}

/// An enchantment is told by its name and its level.
pub proof fn an_enchantment_is_told_by_name_and_level(stack: Stack, known: &Known, i: int)
    requires
        0 <= i < stack.enchantments@.len(),
    ensures
        ({
            let told = enchantment_docs(Some(stack), Some(known));
            &&& told.len() == stack.enchantments@.len()
            &&& told[i].at("level"@) == Some(Doc::number(stack.enchantments@[i].1 as int))
            &&& known.entry_of("minecraft:enchantment"@, stack.enchantments@[i].0 as int) matches Some(
                entry,
            ) ==> told[i].text_at("name"@) == Some(entry.path@)
            &&& enchantment_docs(None, Some(known)).len() == 0
        }),
{
    broadcast use {a_field_reads_back, an_empty_object_has_nothing};
    reveal_strlit("name");
    reveal_strlit("level");
    assert("name"@.len() == 4);
    assert("level"@.len() == 5);
}

/// A number of at most three digits is a place in the list, counted from one. Where it is none there
/// is, nothing is picked.
pub proof fn a_number_picks_its_place(offers: Seq<Offer>, query: Seq<char>, number: int)
    requires
        query.len() <= 3,
        natural_value(query) == Some(number),
    ensures
        1 <= number <= offers.len() ==> picked(offers, query) == Ok::<int, FailureView>(number - 1),
        !(1 <= number <= offers.len()) ==> (picked(offers, query) matches Err(failure)
            && failure.code == "NO_SUCH_TRADE"@),
{
}

proof fn named_once(offers: Seq<Offer>, query: Seq<char>, exact: bool, n: int, at: int)
    requires
        0 <= n <= offers.len(),
    ensures
        named_at(offers, query, exact, n).contains(at) <==> 0 <= at < n && (if exact {
            exactly(offers[at], query)
        } else {
            partly(offers[at], query)
        }),
    decreases n,
{
    if n > 0 {
        let before = named_at(offers, query, exact, n - 1);
        named_once(offers, query, exact, n - 1, at);
        let all = named_at(offers, query, exact, n);
        if all.contains(at) && all.len() > before.len() {
            let k = all.index_of(at);
            if k < before.len() {
                assert(before[k] == at);
            }
        }
        if before.contains(at) {
            let k = before.index_of(at);
            assert(all[k] == at);
        }
        if all.len() > before.len() {
            assert(all[before.len() as int] == n - 1);
        }
    }
}

/// A trade gives what is asked for exactly where what it gives goes by that name in the game, or is
/// shown under those words whatever their case.
pub proof fn what_a_trade_gives_exactly(offer: Offer, query: Seq<char>)
    ensures
        offer.result matches Some(stack) ==> (exactly(offer, query) <==> stack.name@ == needle_of(
            query,
        ) || same_but_case(shown_name(stack), query)),
        partly(offer, query) ==> !exactly(offer, query),
        offer.result matches Some(stack) ==> (partly(offer, query) <==> !exactly(offer, query)
            && answers(stack, query)),
{
}

/// What a name picks gives what was asked for: the item or the words asked for in whole, and only
/// where no trade gives those, something that answers to them in part.
pub proof fn a_name_picks_what_it_names(offers: Seq<Offer>, query: Seq<char>, at: int)
    requires
        place_number(query) is None,
        picked(offers, query) == Ok::<int, FailureView>(at),
    ensures
        0 <= at < offers.len(),
        exactly(offers[at], query) || ((forall|i: int|
            0 <= i < offers.len() ==> !exactly(#[trigger] offers[i], query)) && (
        offers[at].result matches Some(stack) ==> answers(stack, query))),
{
    let exact = named_at(offers, query, true, offers.len() as int);
    let n = offers.len() as int;
    if exact.len() > 0 {
        assert(exact.contains(exact[0]));
        named_once(offers, query, true, n, at);
    } else {
        let part = named_at(offers, query, false, n);
        assert(part.contains(part[0]));
        named_once(offers, query, false, n, at);
        assert forall|i: int| 0 <= i < n implies !exactly(offers[i], query) by {
            named_once(offers, query, true, n, i);
        }
    }
}

/// A slot of the trading screen is told as what is in it, and one there is not as nothing.
pub proof fn a_trading_slot_is_told(slots: Seq<Option<Stack>>, at: int)
    ensures
        0 <= at < slots.len() ==> slot_doc(slots, at) == held_of(slots[at]),
        at >= slots.len() ==> slot_doc(slots, at) == Doc::Null,
        PAYMENT_A == 0 && PAYMENT_B == 1 && RESULT == 2,
{
}

/// A trade is listed by its number, what it gives and how many.
pub proof fn a_trade_is_listed_by_number_and_count(offers: Seq<Offer>, places: Seq<int>, i: int)
    requires
        0 <= i < places.len(),
    ensures
        listed(offers, places).len() == places.len(),
        offers[places[i]].result matches Some(stack) ==> listed(offers, places)[i] == dec(places[i] + 1)
            + ". "@ + shown_name(stack) + " x"@ + dec(stack.count as int),
{
}

/// Without a trading screen there are no trades, and what is open is named.
pub proof fn what_is_open_in_place_of_trades(window: &Window, book: bool)
    ensures
        no_trades(Some(window), book).code == "NO_TRADES"@,
        no_trades(Some(window), book).message == screen_name(window.menu)
            + " is open, and it is not a trading screen."@,
        no_trades(None, true).message == "BookViewScreen"@ + " is open, and it is not a trading screen."@,
{
}

} // verus!
