//! Blocks: one looked at, some found, and a region of them read.
use vstd::prelude::*;

use crate::calls::{Answer, AnswerView, Failure, FailureView};
use crate::json::{docs, Doc, Json};
use crate::place::BlockPos;
use crate::tools::args::{
    given, nat_or, nat_or_of, placed, plain, point, point_of, position, text, text_of,
};
use crate::tools::inventory::{entry, entry_named};
use crate::tools::recipes::{ahead, far, in_cube, nearer, shifted, squares_are_bounded};
use crate::words::{
    bare, before, cat2, cat3, cat4, cat6, dec, decimal, is_before, join, joined, order_carries_over,
    same, signed, texts, texts_are_ordered,
};

verus! {

/// A property of a block with its value, in words.
pub open spec fn pair_of(pair: (String, String)) -> (Seq<char>, Seq<char>) {
    (pair.0@, pair.1@)
}

pub open spec fn pairs_of(list: Seq<(String, String)>) -> Seq<(Seq<char>, Seq<char>)> {
    Seq::new(list.len(), |i: int| pair_of(list[i]))
}

/// Whether one property comes before another: by its name, then by its value.
pub open spec fn pair_before(a: (Seq<char>, Seq<char>), b: (Seq<char>, Seq<char>)) -> bool {
    before(a.0, b.0) || (a.0 == b.0 && before(a.1, b.1))
}

/// A list in order with one more property put where it belongs.
pub open spec fn put_among(
    list: Seq<(Seq<char>, Seq<char>)>,
    pair: (Seq<char>, Seq<char>),
) -> Seq<(Seq<char>, Seq<char>)>
    decreases list.len(),
{
    if list.len() == 0 || !pair_before(pair, list.last()) {
        list.push(pair)
    } else {
        put_among(list.drop_last(), pair).push(list.last())
    }
}

/// Properties in order.
pub open spec fn in_name_order(list: Seq<(Seq<char>, Seq<char>)>) -> Seq<(Seq<char>, Seq<char>)>
    decreases list.len(),
{
    if list.len() == 0 {
        list
    } else {
        put_among(in_name_order(list.drop_last()), list.last())
    }
}

/// Whether properties are in order.
pub open spec fn ordered(list: Seq<(Seq<char>, Seq<char>)>) -> bool {
    forall|i: int, j: int|
        0 <= i < j < list.len() ==> !pair_before(#[trigger] list[j], #[trigger] list[i])
}

proof fn pairs_are_ordered(a: (Seq<char>, Seq<char>), b: (Seq<char>, Seq<char>))
    ensures
        !(pair_before(a, b) && pair_before(b, a)),
        a == b ==> !pair_before(a, b),
{
    texts_are_ordered(a.0, b.0);
    texts_are_ordered(a.1, b.1);
}

proof fn pair_order_carries_over(
    a: (Seq<char>, Seq<char>),
    b: (Seq<char>, Seq<char>),
    c: (Seq<char>, Seq<char>),
)
    requires
        !pair_before(b, a),
        !pair_before(c, b),
    ensures
        !pair_before(c, a),
{
    texts_are_ordered(a.0, b.0);
    texts_are_ordered(b.0, c.0);
    texts_are_ordered(a.0, c.0);
    order_carries_over(a.0, b.0, c.0);
    if a.0 == c.0 {
        order_carries_over(c.0, a.0, b.0);
        order_carries_over(b.0, c.0, a.0);
        texts_are_ordered(b.0, a.0);
        order_carries_over(a.1, b.1, c.1);
    }
}

proof fn put_among_keeps(
    list: Seq<(Seq<char>, Seq<char>)>,
    pair: (Seq<char>, Seq<char>),
)
    requires
        ordered(list),
    ensures
        ordered(put_among(list, pair)),
        put_among(list, pair).len() == list.len() + 1,
        put_among(list, pair).to_multiset() == list.to_multiset().insert(pair),
        put_among(list, pair).last() == pair || (list.len() > 0 && put_among(list, pair).last()
            == list.last()),
    decreases list.len(),
{
    broadcast use vstd::seq_lib::group_to_multiset_ensures;

    let next = put_among(list, pair);
    if list.len() == 0 || !pair_before(pair, list.last()) {
        assert forall|i: int, j: int| 0 <= i < j < next.len() implies !pair_before(
            #[trigger] next[j],
            #[trigger] next[i],
        ) by {
            if j < list.len() {
                assert(!pair_before(list[j], list[i]));
            } else if i < list.len() - 1 {
                assert(!pair_before(list.last(), list[i]));
                pair_order_carries_over(list[i], list.last(), pair);
            }
        }
        assert(next.to_multiset() =~= list.to_multiset().insert(pair));
    } else {
        let rest = list.drop_last();
        assert(ordered(rest)) by {
            assert forall|i: int, j: int| 0 <= i < j < rest.len() implies !pair_before(
                #[trigger] rest[j],
                #[trigger] rest[i],
            ) by {
                assert(!pair_before(list[j], list[i]));
            }
        }
        put_among_keeps(rest, pair);
        let placed = put_among(rest, pair);
        let last = list.last();
        pairs_are_ordered(pair, last);
        assert forall|i: int, j: int| 0 <= i < j < next.len() implies !pair_before(
            #[trigger] next[j],
            #[trigger] next[i],
        ) by {
            if j < placed.len() {
                assert(!pair_before(placed[j], placed[i]));
            } else {
                let end = placed.last();
                if end == pair {
                    assert(!pair_before(last, end));
                } else {
                    assert(end == rest.last());
                    assert(!pair_before(list[list.len() - 1], list[list.len() - 2]));
                }
                if i < placed.len() - 1 {
                    assert(!pair_before(placed[placed.len() - 1], placed[i]));
                    pair_order_carries_over(placed[i], end, last);
                }
            }
        }
        assert(list =~= rest.push(last));
        assert(next.to_multiset() =~= list.to_multiset().insert(pair));
    }
}

/// Putting properties in order keeps each as often as it was there, and leaves them in order.
pub proof fn properties_are_put_in_order(list: Seq<(Seq<char>, Seq<char>)>)
    ensures
        ordered(in_name_order(list)),
        in_name_order(list).len() == list.len(),
        in_name_order(list).to_multiset() == list.to_multiset(),
    decreases list.len(),
{
    broadcast use vstd::seq_lib::group_to_multiset_ensures;

    if list.len() > 0 {
        properties_are_put_in_order(list.drop_last());
        put_among_keeps(in_name_order(list.drop_last()), list.last());
        assert(list =~= list.drop_last().push(list.last()));
    }
}

pub open spec fn property_texts(list: Seq<(Seq<char>, Seq<char>)>) -> Seq<Seq<char>> {
    Seq::new(list.len(), |i: int| list[i].0 + "="@ + list[i].1)
}

/// The whole state of a block of a kind with some properties.
pub open spec fn state_text(kind: Seq<char>, properties: Seq<(Seq<char>, Seq<char>)>) -> Seq<char> {
    if properties.len() == 0 {
        bare(kind)
    } else {
        bare(kind) + "["@ + joined(property_texts(in_name_order(properties)), ","@) + "]"@
    }
}

fn is_pair_before(a: &(String, String), b: &(String, String)) -> (r: bool)
    ensures
        r == pair_before(pair_of(*a), pair_of(*b)),
{
    is_before(a.0.as_str(), b.0.as_str()) || (same(a.0.as_str(), b.0.as_str()) && is_before(
        a.1.as_str(),
        b.1.as_str(),
    ))
}

fn put(list: &mut Vec<(String, String)>, pair: (String, String))
    ensures
        pairs_of(final(list)@) == put_among(pairs_of(old(list)@), pair_of(pair)),
{
    let ghost all = pairs_of(list@);
    let ghost new = pair_of(pair);
    let mut p: usize = list.len();
    proof {
        assert(all.take(p as int) =~= all);
        assert(all.skip(p as int) =~= Seq::empty());
        assert(put_among(all, new) =~= put_among(all.take(p as int), new) + all.skip(p as int));
    }
    while p > 0 && is_pair_before(&pair, &list[p - 1])
        invariant
            p <= list@.len(),
            all == pairs_of(list@),
            new == pair_of(pair),
            put_among(all, new) == put_among(all.take(p as int), new) + all.skip(p as int),
        decreases p,
    {
        proof {
            let here = all.take(p as int);
            assert(here.last() == pair_of(list@[p - 1]));
            assert(here.drop_last() =~= all.take(p - 1));
            assert(put_among(here, new) + all.skip(p as int) =~= put_among(all.take(p - 1), new)
                + all.skip(p - 1));
        }
        p -= 1;
    }
    proof {
        let here = all.take(p as int);
        if p > 0 {
            assert(here.last() == pair_of(list@[p - 1]));
        }
        assert(put_among(here, new) == here.push(new));
    }
    list.insert(p, pair);
    proof {
        assert(pairs_of(list@) =~= all.take(p as int).push(new) + all.skip(p as int));
    }
}

/// The whole state, as /setblock and //set take one: `oak_stairs[facing=north,half=bottom,...]`,
/// the properties in name order, which is the order the game itself writes them in. The kind alone
/// lost every orientation, and on a server whose custom blocks are note blocks in disguise it lost
/// which custom block a note block stood for. Without the minecraft namespace, as every tool here
/// names a block.
pub fn state_name(kind: &str, properties: Vec<(String, String)>) -> (r: String)
    ensures
        r@ == state_text(kind@, pairs_of(properties@)),
{
    let ghost all = pairs_of(properties@);
    let kind = plain(kind);
    if properties.len() == 0 {
        return kind.to_owned();
    }
    let mut rest = properties;
    let mut sorted: Vec<(String, String)> = Vec::new();
    let ghost mut done: int = 0;
    let ghost given = properties@;
    proof {
        assert(given.skip(0) =~= given);
        assert(all.take(0) =~= Seq::empty());
        assert(pairs_of(sorted@) =~= Seq::empty());
    }
    while rest.len() > 0
        invariant
            0 <= done <= given.len(),
            rest@ == given.skip(done),
            all == pairs_of(given),
            pairs_of(sorted@) == in_name_order(all.take(done)),
        decreases rest@.len(),
    {
        proof {
            assert(rest@[0] == given[done]);
            assert(given.skip(done).remove(0) =~= given.skip(done + 1));
            assert(all.take(done + 1).drop_last() =~= all.take(done));
            assert(all.take(done + 1).last() == pair_of(given[done]));
        }
        let pair = rest.remove(0);
        put(&mut sorted, pair);
        proof {
            done = done + 1;
        }
    }
    proof {
        assert(all.take(done) =~= all);
    }
    let mut listed: Vec<String> = Vec::new();
    let mut i: usize = 0;
    while i < sorted.len()
        invariant
            i <= sorted@.len(),
            listed@.len() == i,
            forall|k: int|
                0 <= k < i ==> (#[trigger] listed@[k])@ == property_texts(pairs_of(sorted@))[k],
        decreases sorted@.len() - i,
    {
        listed.push(cat3(sorted[i].0.as_str(), "=", sorted[i].1.as_str()));
        i += 1;
    }
    proof {
        assert(texts(listed@) =~= property_texts(pairs_of(sorted@)));
    }
    cat4(kind, "[", join(&listed, ",").as_str(), "]")
}

/// Whether the game counts a kind of block as air.
pub open spec fn airy(kind: Seq<char>) -> bool {
    bare(kind) == "air"@ || bare(kind) == "cave_air"@ || bare(kind) == "void_air"@
}

/// Whether the game counts a block as air.
///
/// The whole air tag, not the plain kind alone: a cave is cave_air throughout and the End's emptiness
/// is void_air. The other kind of bot reads vanilla's isAir, true for all three, so anything here
/// that asked for the plain kind would answer underground what it would not answer in the open, and
/// answer it differently from that bot.
pub fn is_air(kind: &str) -> (r: bool)
    ensures
        r == airy(kind@),
{
    let kind = plain(kind);
    same(kind, "air") || same(kind, "cave_air") || same(kind, "void_air")
}

/// What get-block-info answers of the block at a place: its kind's name and number.
///
/// Outside the loaded chunks there is nothing to say about the block, which is not air. The name goes
/// without its namespace, as the other kind of bot sends it: the server words the document as it
/// arrives, and "minecraft:dirt" from one kind is a second answer to one block.
pub fn block_info(at: BlockPos, block: Option<(&str, u32)>) -> (r: Answer)
    ensures
        r@ == AnswerView::full(
            "block at "@ + dec(at.x as int) + ", "@ + dec(at.y as int) + ", "@ + dec(at.z as int),
            Doc::object().with("position"@, point_of(at)).with(
                "block"@,
                match block {
                    Some((kind, number)) => Doc::object().with("name"@, Doc::Text(bare(kind@))).with(
                        "type"@,
                        Doc::number(number as int),
                    ).with("position"@, point_of(at)),
                    None => Doc::Null,
                },
            ),
        ),
{
    let described = match block {
        Some((kind, number)) => Json::object().with("name", Json::text(plain(kind))).with(
            "type",
            Json::count(number as u64),
        ).with("position", point(at)),
        None => Json::Null,
    };
    Answer::data(
        cat6(
            "block at ",
            signed(at.x as i64).as_str(),
            ", ",
            signed(at.y as i64).as_str(),
            ", ",
            signed(at.z as i64).as_str(),
        ),
        Json::object().with("position", point(at)).with("block", described),
    )
}

/// The kind of block that is asked for, by its number. An unknown name is refused: looking it up and
/// taking the registry's default -- which is air -- answers a typo with every empty block in range.
pub fn block_kind(kinds: &Vec<String>, asked: &str) -> (r: Result<usize, Failure>)
    ensures
        match r {
            Ok(kind) => entry_named(kinds@, bare(asked@)) == Some(kind as int),
            Err(failure) => entry_named(kinds@, bare(asked@)) is None && failure@
                == FailureView::refusal(
                "NO_SUCH_BLOCK"@,
                "there is no block called "@ + asked@,
            ),
        },
{
    match entry(kinds, plain(asked)) {
        Some(kind) => Ok(kind),
        None => Err(Failure::refused("NO_SUCH_BLOCK", cat2("there is no block called ", asked))),
    }
}

/// An offset from a place, on each axis.
#[derive(Clone, Copy, Debug, PartialEq, Eq, Structural)]
pub struct Offset {
    pub x: i32,
    pub y: i32,
    pub z: i32,
}

pub open spec fn off(o: Offset) -> (int, int, int) {
    (o.x as int, o.y as int, o.z as int)
}

/// Whether a block that is so far away was walked to and is near enough.
pub open spec fn in_reach(o: (int, int, int), radius: int, limit: int, until: (int, int, int)) -> bool {
    in_cube(o, radius) && far(o) <= limit && ahead(o, until)
}

/// Whether a list of offsets has what is found of what was walked: each of them holds the block, the
/// nearest come first, and what it has not does not hold the block.
pub open spec fn gathered<F: Fn(BlockPos) -> bool>(
    holds: F,
    from: BlockPos,
    radius: int,
    limit: int,
    until: (int, int, int),
    list: Seq<Offset>,
) -> bool {
    &&& forall|i: int|
        0 <= i < list.len() ==> in_reach(off(#[trigger] list[i]), radius, limit, until)
            && call_ensures(
            holds,
            (shifted(from, list[i].x as int, list[i].y as int, list[i].z as int),),
            true,
        )
    &&& forall|i: int, j: int|
        0 <= i < j < list.len() ==> nearer(off(#[trigger] list[i]), off(#[trigger] list[j]))
    &&& forall|x: int, y: int, z: int|
        #![trigger shifted(from, x, y, z)]
        in_reach((x, y, z), radius, limit, until) ==> call_ensures(
            holds,
            (shifted(from, x, y, z),),
            false,
        ) || exists|i: int| 0 <= i < list.len() && off(#[trigger] list[i]) == (x, y, z)
}

proof fn gathered_on<F: Fn(BlockPos) -> bool>(
    holds: F,
    from: BlockPos,
    radius: int,
    limit: int,
    here: Offset,
    list: Seq<Offset>,
    next: Seq<Offset>,
    p: int,
    there: bool,
)
    requires
        gathered(holds, from, radius, limit, off(here), list),
        in_cube(off(here), radius),
        there ==> call_ensures(
            holds,
            (shifted(from, here.x as int, here.y as int, here.z as int),),
            true,
        ) && far(off(here)) <= limit,
        !there ==> far(off(here)) > limit || call_ensures(
            holds,
            (shifted(from, here.x as int, here.y as int, here.z as int),),
            false,
        ),
        there ==> 0 <= p <= list.len() && next == list.insert(p, here) && (forall|k: int|
            0 <= k < p ==> far(off(#[trigger] list[k])) <= far(off(here))) && (p < list.len()
            ==> far(off(here)) < far(off(list[p]))),
        !there ==> next == list,
    ensures
        gathered(holds, from, radius, limit, (here.x as int, here.y as int, here.z + 1), next),
{
    let until = (here.x as int, here.y as int, here.z + 1);
    assert forall|i: int| 0 <= i < next.len() implies in_reach(
        off(#[trigger] next[i]),
        radius,
        limit,
        until,
    ) && call_ensures(
        holds,
        (shifted(from, next[i].x as int, next[i].y as int, next[i].z as int),),
        true,
    ) by {
        if there {
            if i < p {
                assert(next[i] == list[i]);
            } else if i > p {
                assert(next[i] == list[i - 1]);
            }
        }
    }
    if there {
        assert forall|i: int, j: int| 0 <= i < j < next.len() implies nearer(
            off(#[trigger] next[i]),
            off(#[trigger] next[j]),
        ) by {
            if j < p {
                assert(next[i] == list[i] && next[j] == list[j]);
            } else if j == p {
                assert(next[i] == list[i]);
                assert(ahead(off(list[i]), off(here)));
            } else if i < p {
                assert(next[i] == list[i] && next[j] == list[j - 1]);
            } else if i == p {
                assert(next[j] == list[j - 1]);
                if p < j - 1 {
                    assert(nearer(off(list[p]), off(list[j - 1])));
                }
            } else {
                assert(next[i] == list[i - 1] && next[j] == list[j - 1]);
            }
        }
    }
    assert forall|x: int, y: int, z: int|
        #![trigger shifted(from, x, y, z)]
        in_reach((x, y, z), radius, limit, until) implies call_ensures(
        holds,
        (shifted(from, x, y, z),),
        false,
    ) || exists|i: int| 0 <= i < next.len() && off(#[trigger] next[i]) == (x, y, z) by {
        if (x, y, z) == off(here) {
            if there {
                assert(off(next[p]) == (x, y, z));
            }
        } else {
            assert(in_reach((x, y, z), radius, limit, off(here)));
            if !call_ensures(holds, (shifted(from, x, y, z),), false) {
                let i = choose|i: int| 0 <= i < list.len() && off(#[trigger] list[i]) == (x, y, z);
                if there {
                    if i < p {
                        assert(off(next[i]) == (x, y, z));
                    } else {
                        assert(off(next[i + 1]) == (x, y, z));
                    }
                } else {
                    assert(off(next[i]) == (x, y, z));
                }
            }
        }
    }
}

proof fn gathered_until<F: Fn(BlockPos) -> bool>(
    holds: F,
    from: BlockPos,
    radius: int,
    limit: int,
    until: (int, int, int),
    next: (int, int, int),
    list: Seq<Offset>,
)
    requires
        gathered(holds, from, radius, limit, until, list),
        forall|o: (int, int, int)|
            in_cube(o, radius) ==> (#[trigger] ahead(o, until) == ahead(o, next)),
    ensures
        gathered(holds, from, radius, limit, next, list),
{
    assert forall|x: int, y: int, z: int|
        #![trigger shifted(from, x, y, z)]
        in_reach((x, y, z), radius, limit, next) implies call_ensures(
        holds,
        (shifted(from, x, y, z),),
        false,
    ) || exists|i: int| 0 <= i < list.len() && off(#[trigger] list[i]) == (x, y, z) by {
        assert(ahead((x, y, z), until));
    }
}

/// What find-blocks finds: where the blocks are, the nearest first and no more than were asked for.
pub open spec fn found_near<F: Fn(BlockPos) -> bool>(
    holds: F,
    from: BlockPos,
    radius: int,
    limit: int,
    count: int,
    found: Seq<BlockPos>,
) -> bool {
    exists|list: Seq<Offset>|
        {
            &&& #[trigger] gathered(holds, from, radius, limit, (radius + 1, 0, 0), list)
            &&& found == Seq::new(
                if list.len() < count {
                    list.len()
                } else {
                    count as nat
                },
                |i: int| shifted(from, list[i].x as int, list[i].y as int, list[i].z as int),
            )
        }
}

fn distance(o: Offset, radius: i32) -> (r: i32)
    requires
        0 <= radius <= 26754,
        in_cube(off(o), radius as int),
    ensures
        r == far(off(o)),
{
    proof {
        squares_are_bounded(o.x as int, radius as int);
        squares_are_bounded(o.y as int, radius as int);
        squares_are_bounded(o.z as int, radius as int);
    }
    o.x * o.x + o.y * o.y + o.z * o.z
}

/// Where the blocks are that `holds` says are those wanted, the nearest first, and a fixed order
/// among blocks at the same distance so two runs agree. `limit` is the square of how far one may be,
/// `radius` how far that is on one axis.
#[verifier::rlimit(60)]
pub fn find_blocks<F: Fn(BlockPos) -> bool>(
    holds: F,
    from: BlockPos,
    radius: i32,
    limit: i64,
    count: usize,
) -> (r: Vec<BlockPos>)
    requires
        radius <= 26754,
        i32::MIN + radius <= from.x <= i32::MAX - radius,
        i32::MIN + radius <= from.y <= i32::MAX - radius,
        i32::MIN + radius <= from.z <= i32::MAX - radius,
        forall|at: BlockPos| call_requires(holds, (at,)),
    ensures
        found_near(holds, from, radius as int, limit as int, count as int, r@),
{
    let mut list: Vec<Offset> = Vec::new();
    let ghost wide = radius as int;
    let ghost most = limit as int;
    let mut out: Vec<BlockPos> = Vec::new();
    if radius < 0 {
        proof {
            assert(gathered(holds, from, wide, most, (wide + 1, 0, 0), list@));
            assert(out@ =~= Seq::new(
                0,
                |i: int|
                    shifted(from, list@[i].x as int, list@[i].y as int, list@[i].z as int),
            ));
        }
        return out;
    }
    let mut x: i32 = -radius;
    while x <= radius
        invariant
            0 <= radius <= 26754,
            wide == radius,
            most == limit,
            -radius <= x <= radius + 1,
            i32::MIN + radius <= from.x <= i32::MAX - radius,
            i32::MIN + radius <= from.y <= i32::MAX - radius,
            i32::MIN + radius <= from.z <= i32::MAX - radius,
            forall|at: BlockPos| call_requires(holds, (at,)),
            gathered(holds, from, wide, most, (x as int, -wide, -wide), list@),
        decreases radius - x + 1,
    {
        let mut y: i32 = -radius;
        while y <= radius
            invariant
                0 <= radius <= 26754,
                wide == radius,
                most == limit,
                -radius <= x <= radius,
                -radius <= y <= radius + 1,
                i32::MIN + radius <= from.x <= i32::MAX - radius,
                i32::MIN + radius <= from.y <= i32::MAX - radius,
                i32::MIN + radius <= from.z <= i32::MAX - radius,
                forall|at: BlockPos| call_requires(holds, (at,)),
                gathered(holds, from, wide, most, (x as int, y as int, -wide), list@),
            decreases radius - y + 1,
        {
            let mut z: i32 = -radius;
            while z <= radius
                invariant
                    0 <= radius <= 26754,
                    wide == radius,
                    most == limit,
                    -radius <= x <= radius,
                    -radius <= y <= radius,
                    -radius <= z <= radius + 1,
                    i32::MIN + radius <= from.x <= i32::MAX - radius,
                    i32::MIN + radius <= from.y <= i32::MAX - radius,
                    i32::MIN + radius <= from.z <= i32::MAX - radius,
                    forall|at: BlockPos| call_requires(holds, (at,)),
                    gathered(holds, from, wide, most, (x as int, y as int, z as int), list@),
                decreases radius - z + 1,
            {
                let here = Offset { x, y, z };
                let away: i32 = distance(here, radius);
                let at = BlockPos { x: from.x + x, y: from.y + y, z: from.z + z };
                let ghost before = list@;
                let mut p: usize = 0;
                let mut there: bool = false;
                proof {
                    assert(at == shifted(from, x as int, y as int, z as int));
                }
                if away as i64 <= limit {
                    there = holds(at);
                    if there {
                        while p < list.len() && distance(list[p], radius) <= away
                            invariant
                                p <= list@.len(),
                                0 <= radius <= 26754,
                                wide == radius,
                                away == far(off(here)),
                                gathered(
                                    holds,
                                    from,
                                    wide,
                                    most,
                                    (x as int, y as int, z as int),
                                    list@,
                                ),
                                forall|k: int|
                                    0 <= k < p ==> far(off(#[trigger] list@[k])) <= away,
                            decreases list@.len() - p,
                        {
                            p += 1;
                        }
                        list.insert(p, here);
                    }
                }
                proof {
                    gathered_on(
                        holds,
                        from,
                        wide,
                        most,
                        here,
                        before,
                        list@,
                        p as int,
                        there,
                    );
                }
                z += 1;
            }
            proof {
                gathered_until(
                    holds,
                    from,
                    wide,
                    most,
                    (x as int, y as int, wide + 1),
                    (x as int, y + 1, -wide),
                    list@,
                );
            }
            y += 1;
        }
        proof {
            gathered_until(
                holds,
                from,
                wide,
                most,
                (x as int, wide + 1, -wide),
                (x + 1, -wide, -wide),
                list@,
            );
        }
        x += 1;
    }
    proof {
        gathered_until(
            holds,
            from,
            wide,
            most,
            (wide + 1, -wide, -wide),
            (wide + 1, 0, 0),
            list@,
        );
    }
    let mut i: usize = 0;
    while i < list.len() && i < count
        invariant
            i <= list@.len(),
            i <= count,
            0 <= radius <= 26754,
            wide == radius,
            i32::MIN + radius <= from.x <= i32::MAX - radius,
            i32::MIN + radius <= from.y <= i32::MAX - radius,
            i32::MIN + radius <= from.z <= i32::MAX - radius,
            gathered(holds, from, wide, most, (wide + 1, 0, 0), list@),
            out@.len() == i,
            forall|k: int|
                0 <= k < i ==> (#[trigger] out@[k]) == shifted(
                    from,
                    list@[k].x as int,
                    list@[k].y as int,
                    list@[k].z as int,
                ),
        decreases list@.len() - i,
    {
        let o = list[i];
        proof {
            assert(in_reach(off(list@[i as int]), wide, most, (wide + 1, 0, 0)));
        }
        out.push(BlockPos { x: from.x + o.x, y: from.y + o.y, z: from.z + o.z });
        i += 1;
    }
    proof {
        let n = if list@.len() < count {
            list@.len()
        } else {
            count as nat
        };
        assert(out@ =~= Seq::new(
            n,
            |i: int| shifted(from, list@[i].x as int, list@[i].y as int, list@[i].z as int),
        ));
    }
    out
}

pub open spec fn points(found: Seq<BlockPos>) -> Seq<Doc> {
    Seq::new(found.len(), |i: int| point_of(found[i]))
}

/// What find-blocks answers.
pub fn found_blocks(asked: &str, max_distance: Json, found: &Vec<BlockPos>) -> (r: Answer)
    ensures
        r@ == AnswerView::full(
            "found "@ + dec(found@.len() as int) + " "@ + asked@,
            Doc::object().with("blockType"@, Doc::Text(asked@)).with(
                "maxDistance"@,
                max_distance@,
            ).with("positions"@, Doc::list(points(found@))),
        ),
{
    let mut positions: Vec<Json> = Vec::new();
    let mut i: usize = 0;
    while i < found.len()
        invariant
            i <= found@.len(),
            positions@.len() == i,
            forall|k: int| 0 <= k < i ==> (#[trigger] positions@[k])@ == points(found@)[k],
        decreases found@.len() - i,
    {
        positions.push(point(found[i]));
        i += 1;
    }
    proof {
        assert(docs(positions@) =~= points(found@));
    }
    Answer::data(
        cat4("found ", decimal(found.len() as u64).as_str(), " ", asked),
        Json::object().with("blockType", Json::text(asked)).with("maxDistance", max_distance).with(
            "positions",
            Json::list(positions),
        ),
    )
}

/// The block find-blocks looks for, and how many of it are told at most.
pub fn find_args(args: &Json) -> (r: Result<(String, u64), Failure>)
    ensures
        match r {
            Ok((kind, count)) => text_of(args@, "blockType"@) == Ok::<Seq<char>, FailureView>(kind@)
                && count == nat_or_of(args@, "count"@, 1),
            Err(failure) => text_of(args@, "blockType"@) == Err::<Seq<char>, FailureView>(failure@),
        },
{
    match text(args, "blockType") {
        Ok(kind) => Ok((kind.to_owned(), nat_or(args, "count", 1))),
        Err(failure) => Err(failure),
    }
}

/// A block's state is its name, and behind it in brackets its properties, where it has any.
pub proof fn a_state_is_its_name_and_its_properties(
    kind: Seq<char>,
    properties: Seq<(Seq<char>, Seq<char>)>,
    i: int,
)
    ensures
        properties.len() == 0 ==> state_text(kind, properties) == bare(kind),
        properties.len() > 0 ==> state_text(kind, properties) == bare(kind) + "["@ + joined(
            property_texts(in_name_order(properties)),
            ","@,
        ) + "]"@,
        0 <= i < properties.len() ==> property_texts(properties)[i] == properties[i].0 + "="@
            + properties[i].1,
{
}

/// The three blocks the game calls air, and no other.
pub proof fn these_blocks_are_air(kind: Seq<char>)
    ensures
        bare(kind) == "air"@ ==> airy(kind),
        bare(kind) == "cave_air"@ ==> airy(kind),
        bare(kind) == "void_air"@ ==> airy(kind),
        bare(kind) != "air"@ && bare(kind) != "cave_air"@ && bare(kind) != "void_air"@ ==> !airy(kind),
{
}

/// What is found holds the block, lies within the distance, and comes nearest first.
pub proof fn the_nearest_block_comes_first<F: Fn(BlockPos) -> bool>(
    holds: F,
    from: BlockPos,
    radius: int,
    limit: int,
    count: int,
    found: Seq<BlockPos>,
    a: int,
    b: int,
)
    requires
        found_near(holds, from, radius, limit, count, found),
        0 <= a < b < found.len(),
        0 <= count,
        0 <= radius <= 26754,
        i32::MIN + radius <= from.x <= i32::MAX - radius,
        i32::MIN + radius <= from.y <= i32::MAX - radius,
        i32::MIN + radius <= from.z <= i32::MAX - radius,
    ensures
        found.len() <= count,
        call_ensures(holds, (found[a],), true),
        ({
            let (x, y, z) = (found[a].x - from.x, found[a].y - from.y, found[a].z - from.z);
            let (p, q, r) = (found[b].x - from.x, found[b].y - from.y, found[b].z - from.z);
            &&& x * x + y * y + z * z <= limit
            &&& x * x + y * y + z * z <= p * p + q * q + r * r
        }),
{
    let list = choose|list: Seq<Offset>|
        {
            &&& #[trigger] gathered(holds, from, radius, limit, (radius + 1, 0, 0), list)
            &&& found == Seq::new(
                if list.len() < count {
                    list.len()
                } else {
                    count as nat
                },
                |i: int| shifted(from, list[i].x as int, list[i].y as int, list[i].z as int),
            )
        };
    assert(in_reach(off(list[a]), radius, limit, (radius + 1, 0, 0)));
    assert(in_reach(off(list[b]), radius, limit, (radius + 1, 0, 0)));
    assert(nearer(off(list[a]), off(list[b])));
}

} // verus!
