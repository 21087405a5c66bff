//! A region of blocks: read in one fixed order, and told as runs of the states it holds.
use vstd::prelude::*;

use crate::calls::{Answer, AnswerView, Failure, FailureView};
use crate::json::{a_field_reads_back, an_empty_object_has_nothing, docs, Doc, Json};
use crate::place::BlockPos;
use crate::tools::args::{
    boolean, boolean_of, corner, cut_of, given, place_of, point, point_of, written, written_of,
};
use crate::tools::blocks::{airy, is_air, pairs_of, state_name, state_text};
use crate::words::cat4;

verus! {

/// The box a caller asked for, with its corners put in order.
#[derive(Clone, Copy, Debug, PartialEq, Eq, Structural)]
pub struct Bounds {
    pub low: BlockPos,
    pub high: BlockPos,
}

pub open spec fn less(a: i32, b: i32) -> i32 {
    if a < b {
        a
    } else {
        b
    }
}

pub open spec fn more(a: i32, b: i32) -> i32 {
    if a < b {
        b
    } else {
        a
    }
}

/// The box between two corners.
pub open spec fn box_of(one: BlockPos, other: BlockPos) -> Bounds {
    Bounds {
        low: BlockPos {
            x: less(one.x, other.x),
            y: less(one.y, other.y),
            z: less(one.z, other.z),
        },
        high: BlockPos {
            x: more(one.x, other.x),
            y: more(one.y, other.y),
            z: more(one.z, other.z),
        },
    }
}

fn in_order(a: i32, b: i32) -> (r: (i32, i32))
    ensures
        r == (less(a, b), more(a, b)),
{
    if a < b {
        (a, b)
    } else {
        (b, a)
    }
}

impl Bounds {
    pub open spec fn ordered(self) -> bool {
        self.low.x <= self.high.x && self.low.y <= self.high.y && self.low.z <= self.high.z
    }

    /// How far the box spans on each axis, both corners counting.
    pub open spec fn width(self) -> int {
        self.high.x - self.low.x + 1
    }

    pub open spec fn height(self) -> int {
        self.high.y - self.low.y + 1
    }

    pub open spec fn depth(self) -> int {
        self.high.z - self.low.z + 1
    }

    /// How many blocks the box holds.
    pub open spec fn volume(self) -> int {
        self.width() * self.height() * self.depth()
    }

    /// Whether the box can be counted through.
    pub open spec fn countable(self) -> bool {
        &&& self.ordered()
        &&& self.width() <= i32::MAX
        &&& self.height() <= i32::MAX
        &&& self.depth() <= i32::MAX
        &&& self.volume() <= i64::MAX
    }

    /// Either pair of opposite corners describes the same box, and each axis is settled on its own:
    /// a caller that named the far corner first, or mixed the two, still gets the box it meant.
    pub fn between(one: BlockPos, other: BlockPos) -> (r: Bounds)
        ensures
            r == box_of(one, other),
            r.ordered(),
    {
        let (low_x, high_x) = in_order(one.x, other.x);
        let (low_y, high_y) = in_order(one.y, other.y);
        let (low_z, high_z) = in_order(one.z, other.z);
        Bounds {
            low: BlockPos { x: low_x, y: low_y, z: low_z },
            high: BlockPos { x: high_x, y: high_y, z: high_z },
        }
    }

    /// Whether the box can be counted through.
    pub fn fits(&self) -> (r: bool)
        ensures
            r == self.countable(),
    {
        if self.low.x > self.high.x || self.low.y > self.high.y || self.low.z > self.high.z {
            return false;
        }
        let width: i64 = self.high.x as i64 - self.low.x as i64 + 1;
        let height: i64 = self.high.y as i64 - self.low.y as i64 + 1;
        let depth: i64 = self.high.z as i64 - self.low.z as i64 + 1;
        let most: i64 = i32::MAX as i64;
        if width > most || height > most || depth > most {
            return false;
        }
        proof {
            assert(0 <= width * height <= 0x7fff_ffff * 0x7fff_ffff) by (nonlinear_arith)
                requires
                    0 <= width <= 0x7fff_ffff,
                    0 <= height <= 0x7fff_ffff,
            ;
            let area = width as int * height as int;
            assert(0 <= area * depth <= 0x7fff_ffff * 0x7fff_ffff * 0x7fff_ffff) by (
            nonlinear_arith)
                requires
                    0 <= area <= 0x7fff_ffff * 0x7fff_ffff,
                    0 <= depth <= 0x7fff_ffff,
            ;
        }
        let volume: i128 = (width * height) as i128 * depth as i128;
        volume <= i64::MAX as i128
    }

    /// How far the box spans on each axis, both corners counting.
    pub fn size(&self) -> (r: (i32, i32, i32))
        requires
            self.countable(),
        ensures
            r.0 == self.width(),
            r.1 == self.height(),
            r.2 == self.depth(),
    {
        (
            (self.high.x as i64 - self.low.x as i64 + 1) as i32,
            (self.high.y as i64 - self.low.y as i64 + 1) as i32,
            (self.high.z as i64 - self.low.z as i64 + 1) as i32,
        )
    }
}

/// Either pair of opposite corners describes the same box: whichever of a box's corners are named,
/// as long as they are opposite, and in whichever order.
pub proof fn either_pair_of_corners_is_the_same_box(low: BlockPos, high: BlockPos, flip: (bool, bool, bool))
    ensures
        ({
            let one = BlockPos {
                x: if flip.0 {
                    high.x
                } else {
                    low.x
                },
                y: if flip.1 {
                    high.y
                } else {
                    low.y
                },
                z: if flip.2 {
                    high.z
                } else {
                    low.z
                },
            };
            let other = BlockPos {
                x: if flip.0 {
                    low.x
                } else {
                    high.x
                },
                y: if flip.1 {
                    low.y
                } else {
                    high.y
                },
                z: if flip.2 {
                    low.z
                } else {
                    high.z
                },
            };
            box_of(one, other) == box_of(low, high)
        }),
{
}

/// The box to read and whether to keep the air in it, as a call words them.
pub open spec fn asked_of(args: Doc) -> Result<(Bounds, bool), FailureView> {
    let from = given(args, "from"@);
    let to = given(args, "to"@);
    match place_of(cut_of(from, "x"@), cut_of(from, "y"@), cut_of(from, "z"@)) {
        Err(failure) => Err(failure),
        Ok(one) => match place_of(cut_of(to, "x"@), cut_of(to, "y"@), cut_of(to, "z"@)) {
            Err(failure) => Err(failure),
            Ok(other) => match boolean_of(args, "includeAir"@, true) {
                Err(failure) => Err(failure),
                Ok(air) => Ok((box_of(one, other), air)),
            },
        },
    }
}

/// The box to read and whether to keep the air in it, as a call words them.
pub fn asked(args: &Json) -> (r: Result<(Bounds, bool), Failure>)
    ensures
        match r {
            Ok(told) => asked_of(args@) == Ok::<(Bounds, bool), FailureView>(told)
                && told.0.ordered(),
            Err(failure) => asked_of(args@) == Err::<(Bounds, bool), FailureView>(failure@),
        },
{
    let one = match corner(args, "from") {
        Ok(one) => one,
        Err(failure) => return Err(failure),
    };
    let other = match corner(args, "to") {
        Ok(other) => other,
        Err(failure) => return Err(failure),
    };
    match boolean(args, "includeAir", true) {
        Ok(air) => Ok((Bounds::between(one, other), air)),
        Err(failure) => Err(failure),
    }
}

/// A state a block can be in: its number, and the kind of block by its registry name.
#[derive(Clone, Copy, Debug)]
pub struct State {
    pub id: u32,
    pub kind: &'static str,
}

#[derive(Clone, Copy, Debug, PartialEq, Eq, Structural)]
pub struct Run {
    pub block: usize,
    pub count: u64,
}

/// A region as it is read: the blocks in order, each one either lengthening the run the one before
/// it opened or starting another.
pub struct Region {
    pub palette: Vec<String>,
    pub runs: Vec<Run>,
    pub missing: u64,
    pub outside: u64,
    /// The states seen so far, each where its name is in the palette, so a block is named once and
    /// not once a position.
    pub seen: Vec<State>,
    /// What the open run is made of, or nothing when the position before this one closed it.
    pub open: Option<u32>,
}

/// A region without the names of its palette.
pub struct RegionView {
    pub seen: Seq<State>,
    pub runs: Seq<(int, int)>,
    pub missing: int,
    pub outside: int,
    pub open: Option<u32>,
}

impl View for Region {
    type V = RegionView;

    open spec fn view(&self) -> RegionView {
        RegionView {
            seen: self.seen@,
            runs: Seq::new(
                self.runs@.len(),
                |i: int| (self.runs@[i].block as int, self.runs@[i].count as int),
            ),
            missing: self.missing as int,
            outside: self.outside as int,
            open: self.open,
        }
    }
}

/// Where a state is among those seen, from a place on.
pub open spec fn seen_at(seen: Seq<State>, id: u32, from: int) -> Option<int>
    decreases seen.len() - from,
{
    if from < 0 || from >= seen.len() {
        None
    } else if seen[from].id == id {
        Some(from)
    } else {
        seen_at(seen, id, from + 1)
    }
}

impl RegionView {
    pub open spec fn empty() -> RegionView {
        RegionView {
            seen: Seq::empty(),
            runs: Seq::empty(),
            missing: 0,
            outside: 0,
            open: None,
        }
    }

    /// The region with one more block.
    pub open spec fn pushed(self, state: State) -> RegionView {
        if self.runs.len() > 0 && self.open == Some(state.id) {
            let (block, count) = self.runs.last();
            RegionView { runs: self.runs.drop_last().push((block, count + 1)), ..self }
        } else {
            match seen_at(self.seen, state.id, 0) {
                Some(at) => RegionView {
                    runs: self.runs.push((at, 1)),
                    open: Some(state.id),
                    ..self
                },
                None => RegionView {
                    seen: self.seen.push(state),
                    runs: self.runs.push((self.seen.len() as int, 1)),
                    open: Some(state.id),
                    ..self
                },
            }
        }
    }
}

/// What stands at a position.
pub enum Sight {
    /// A position the client holds no chunk for.
    Unloaded,
    /// A block that is left out.
    Left(State),
    Block(State),
    /// The positions of a layer past the world's build limits.
    Beyond(int),
}

impl RegionView {
    /// The region with what stands at one more position. What is not reported closes the run: it never
    /// joins the blocks either side of it into one.
    pub open spec fn with(self, sight: Sight) -> RegionView {
        match sight {
            Sight::Unloaded => RegionView { missing: self.missing + 1, open: None, ..self },
            Sight::Left(_) => RegionView { open: None, ..self },
            Sight::Block(state) => self.pushed(state),
            Sight::Beyond(blocks) => RegionView {
                outside: self.outside + blocks,
                open: None,
                ..self
            },
        }
    }

    pub open spec fn with_row(self, row: Seq<Sight>) -> RegionView
        decreases row.len(),
    {
        if row.len() == 0 {
            self
        } else {
            self.with_row(row.drop_last()).with(row.last())
        }
    }

    pub open spec fn with_layer(self, rows: Seq<Seq<Sight>>) -> RegionView
        decreases rows.len(),
    {
        if rows.len() == 0 {
            self
        } else {
            self.with_layer(rows.drop_last()).with_row(rows.last())
        }
    }

    pub open spec fn with_layers(self, layers: Seq<Seq<Seq<Sight>>>) -> RegionView
        decreases layers.len(),
    {
        if layers.len() == 0 {
            self
        } else {
            self.with_layers(layers.drop_last()).with_layer(layers.last())
        }
    }
}

/// Whether a sight is what stands at a place.
pub open spec fn saw<F: Fn(BlockPos) -> Option<State>>(
    block: F,
    at: BlockPos,
    air: bool,
    sight: Sight,
) -> bool {
    match sight {
        Sight::Unloaded => call_ensures(block, (at,), None),
        Sight::Left(state) => call_ensures(block, (at,), Some(state)) && !air && airy(state.kind@),
        Sight::Block(state) => call_ensures(block, (at,), Some(state)) && (air || !airy(
            state.kind@,
        )),
        Sight::Beyond(_) => false,
    }
}

/// Whether a row is what stands along x, ascending.
pub open spec fn saw_row<F: Fn(BlockPos) -> Option<State>>(
    block: F,
    low: BlockPos,
    z: int,
    y: int,
    air: bool,
    row: Seq<Sight>,
) -> bool {
    forall|i: int|
        0 <= i < row.len() ==> saw(
            block,
            BlockPos { x: (low.x + i) as i32, y: y as i32, z: z as i32 },
            air,
            #[trigger] row[i],
        )
}

/// Whether a layer is what stands at a height: the rows along z, ascending, or, past the world's floor
/// or ceiling, so many blocks that never will be.
pub open spec fn saw_layer<F: Fn(BlockPos) -> Option<State>>(
    block: F,
    bounds: Bounds,
    built: (i32, i32),
    y: int,
    air: bool,
    rows: Seq<Seq<Sight>>,
) -> bool {
    if built.0 <= y < built.1 {
        rows.len() == bounds.depth() && forall|j: int|
            0 <= j < rows.len() ==> (#[trigger] rows[j]).len() == bounds.width() && saw_row(
                block,
                bounds.low,
                bounds.low.z + j,
                y,
                air,
                rows[j],
            )
    } else {
        rows == seq![seq![Sight::Beyond(bounds.width() * bounds.depth())]]
    }
}

/// Whether layers are what stands in a box, the layers along y, ascending.
pub open spec fn saw_box<F: Fn(BlockPos) -> Option<State>>(
    block: F,
    bounds: Bounds,
    built: (i32, i32),
    air: bool,
    layers: Seq<Seq<Seq<Sight>>>,
) -> bool {
    forall|k: int|
        0 <= k < layers.len() ==> saw_layer(
            block,
            bounds,
            built,
            bounds.low.y + k,
            air,
            #[trigger] layers[k],
        )
}

/// Whether a name spells a state out with the properties it has.
pub open spec fn spells<P: Fn(u32) -> Vec<(String, String)>>(
    properties: P,
    state: State,
    name: Seq<char>,
) -> bool {
    exists|listed: Vec<(String, String)>| #[trigger]
        call_ensures(properties, (state.id,), listed) && name == state_text(
            state.kind@,
            pairs_of(listed@),
        )
}

/// Whether each entry of a palette spells out the state it stands for.
pub open spec fn spelled<P: Fn(u32) -> Vec<(String, String)>>(
    properties: P,
    seen: Seq<State>,
    palette: Seq<String>,
) -> bool {
    palette.len() == seen.len() && forall|i: int|
        0 <= i < palette.len() ==> spells(properties, seen[i], (#[trigger] palette[i])@)
}

/// Whether nothing in a region counts more than so many.
pub open spec fn within(region: RegionView, most: int) -> bool {
    &&& 0 <= region.missing <= most
    &&& 0 <= region.outside <= most
    &&& forall|i: int| 0 <= i < region.runs.len() ==> 0 <= (#[trigger] region.runs[i]).1 <= most
}

impl Region {
    pub fn new() -> (r: Region)
        ensures
            r@ == RegionView::empty(),
            r.palette@ == Seq::<String>::empty(),
    {
        let r = Region {
            palette: Vec::new(),
            runs: Vec::new(),
            missing: 0,
            outside: 0,
            seen: Vec::new(),
            open: None,
        };
        proof {
            assert(r@.runs =~= Seq::empty());
        }
        r
    }

    fn find(&self, id: u32) -> (r: Option<usize>)
        ensures
            match r {
                Some(at) => seen_at(self.seen@, id, 0) == Some(at as int),
                None => seen_at(self.seen@, id, 0) is None,
            },
    {
        let mut i: usize = 0;
        while i < self.seen.len()
            invariant
                i <= self.seen@.len(),
                seen_at(self.seen@, id, 0) == seen_at(self.seen@, id, i as int),
            decreases self.seen@.len() - i,
        {
            if self.seen[i].id == id {
                return Some(i);
            }
            i += 1;
        }
        None
    }

    /// One more block. `properties` gives those of a state by its number, and is asked for each state
    /// once.
    pub fn push<P: Fn(u32) -> Vec<(String, String)>>(&mut self, state: State, properties: &P)
        requires
            within(old(self)@, u64::MAX - 1),
            spelled(*properties, old(self).seen@, old(self).palette@),
            forall|id: u32| call_requires(*properties, (id,)),
        ensures
            final(self)@ == old(self)@.pushed(state),
            spelled(*properties, final(self).seen@, final(self).palette@),
    {
        let ghost before = self@;
        let same: bool = match self.open {
            Some(id) => id == state.id,
            None => false,
        };
        let count: usize = self.runs.len();
        if count > 0 && same {
            let last = self.runs[count - 1];
            proof {
                assert(before.runs[count - 1] == (last.block as int, last.count as int));
            }
            self.runs.set(count - 1, Run { block: last.block, count: last.count + 1 });
            proof {
                assert(self@.runs =~= before.pushed(state).runs);
            }
            return;
        }
        let block: usize = match self.find(state.id) {
            Some(at) => at,
            None => {
                let listed = properties(state.id);
                let name = state_name(state.kind, listed);
                proof {
                    assert(spells(*properties, state, name@));
                }
                self.palette.push(name);
                self.seen.push(state);
                self.palette.len() - 1
            },
        };
        self.runs.push(Run { block, count: 1 });
        self.open = Some(state.id);
        proof {
            assert(self@.runs =~= before.pushed(state).runs);
        }
    }

    /// A position the client holds no chunk for: counted, and in no run, because there is nothing to
    /// name it with.
    pub fn unloaded(&mut self)
        requires
            old(self).missing < u64::MAX,
        ensures
            final(self)@ == old(self)@.with(Sight::Unloaded),
            final(self).palette == old(self).palette,
    {
        self.missing = self.missing + 1;
        self.dropped();
    }

    /// The positions of a layer past the world's build limits, counted apart from the ones with no
    /// chunk: one is answered by loading them, the other never resolves.
    pub fn beyond(&mut self, blocks: u64)
        requires
            old(self).outside + blocks <= u64::MAX,
        ensures
            final(self)@ == old(self)@.with(Sight::Beyond(blocks as int)),
            final(self).palette == old(self).palette,
    {
        self.outside = self.outside + blocks;
        self.dropped();
    }

    /// A position whose block is left out. It closes the run: what is not reported never joins the
    /// blocks either side of it into one.
    pub fn dropped(&mut self)
        ensures
            final(self)@ == (RegionView { open: None, ..old(self)@ }),
            final(self).palette == old(self).palette,
    {
        self.open = None;
    }
}

proof fn pushing_counts_one(region: RegionView, state: State, most: int)
    requires
        within(region, most),
        0 <= most,
    ensures
        within(region.pushed(state), most + 1),
{
    let next = region.pushed(state);
    assert forall|i: int| 0 <= i < next.runs.len() implies 0 <= (#[trigger] next.runs[i]).1 <= most
        + 1 by {
        if i < region.runs.len() {
            assert(0 <= region.runs[i].1 <= most);
        }
    }
}

proof fn so_far_is_less(bounds: Bounds, k: int, j: int, i: int)
    requires
        bounds.countable(),
        0 <= k < bounds.height(),
        0 <= j < bounds.depth(),
        0 <= i < bounds.width(),
    ensures
        k * (bounds.width() * bounds.depth()) + j * bounds.width() + i < bounds.volume(),
{
    let (w, h, d) = (bounds.width(), bounds.height(), bounds.depth());
    let area = w * d;
    assert((j + 1) * w <= d * w) by (nonlinear_arith)
        requires
            0 <= j < d,
            0 <= w,
    ;
    assert(j * w + w == (j + 1) * w) by (nonlinear_arith);
    assert(d * w == area) by (nonlinear_arith)
        requires
            area == w * d,
    ;
    assert((k + 1) * area <= h * area) by (nonlinear_arith)
        requires
            0 <= k < h,
            0 <= area,
    ;
    assert(k * area + area == (k + 1) * area) by (nonlinear_arith);
    assert(h * area == w * h * d) by (nonlinear_arith)
        requires
            area == w * d,
    ;
}

proof fn layers_fit(bounds: Bounds, k: int)
    requires
        bounds.countable(),
        0 <= k <= bounds.height(),
    ensures
        0 <= bounds.width() * bounds.depth(),
        k * (bounds.width() * bounds.depth()) <= bounds.volume(),
        0 <= k * (bounds.width() * bounds.depth()),
        (k + 1) * (bounds.width() * bounds.depth()) == k * (bounds.width() * bounds.depth())
            + bounds.width() * bounds.depth(),
{
    let (w, h, d) = (bounds.width(), bounds.height(), bounds.depth());
    let area = w * d;
    assert(0 <= area) by (nonlinear_arith)
        requires
            0 <= w,
            0 <= d,
            area == w * d,
    ;
    assert(k * area <= h * area && 0 <= k * area) by (nonlinear_arith)
        requires
            0 <= k <= h,
            0 <= area,
    ;
    assert(h * area == w * h * d) by (nonlinear_arith)
        requires
            area == w * d,
    ;
    assert((k + 1) * area == k * area + area) by (nonlinear_arith);
}

proof fn area_fits(bounds: Bounds)
    requires
        bounds.countable(),
    ensures
        0 <= bounds.width() * bounds.depth() <= i64::MAX,
{
    let (w, d) = (bounds.width(), bounds.depth());
    assert(0 <= w * d <= 0x7fff_ffff * 0x7fff_ffff) by (nonlinear_arith)
        requires
            0 <= w <= 0x7fff_ffff,
            0 <= d <= 0x7fff_ffff,
    ;
}

impl Region {
    /// Every block in the box, read y, then z, then x, all ascending. The order is part of the
    /// answer -- nothing else says where a run sits -- and it is the order the other kind of bot
    /// walks, so one box read by either is the same runs.
    ///
    /// `built` is where the world begins and ends in height, the end not counting; `block` gives the
    /// state at a place, where its chunk was sent; `properties` those of a state by its number.
    ///
    /// Past the world's floor or ceiling there is no block and never will be, which the caller
    /// answers differently from a chunk it was not sent. A whole layer is one or the other, so the
    /// height is asked once for it rather than once a block.
    #[verifier::rlimit(60)]
    pub fn read<F: Fn(BlockPos) -> Option<State>, P: Fn(u32) -> Vec<(String, String)>>(
        bounds: Bounds,
        built: (i32, i32),
        include_air: bool,
        block: F,
        properties: P,
    ) -> (r: Region)
        requires
            bounds.countable(),
            forall|at: BlockPos| call_requires(block, (at,)),
            forall|id: u32| call_requires(properties, (id,)),
        ensures
            exists|layers: Seq<Seq<Seq<Sight>>>|
                {
                    &&& layers.len() == bounds.height()
                    &&& #[trigger] saw_box(block, bounds, built, include_air, layers)
                    &&& r@ == RegionView::empty().with_layers(layers)
                },
            spelled(properties, r.seen@, r.palette@),
    {
        let (width, height, depth) = bounds.size();
        let ghost area = bounds.width() * bounds.depth();
        proof {
            area_fits(bounds);
        }
        let blocks: u64 = width as u64 * depth as u64;
        let mut region = Region::new();
        let ghost mut layers: Seq<Seq<Seq<Sight>>> = Seq::empty();
        let mut k: i32 = 0;
        while k < height
            invariant
                0 <= k <= height,
                bounds.countable(),
                width == bounds.width(),
                height == bounds.height(),
                depth == bounds.depth(),
                area == bounds.width() * bounds.depth(),
                blocks == area,
                forall|at: BlockPos| call_requires(block, (at,)),
                forall|id: u32| call_requires(properties, (id,)),
                layers.len() == k,
                saw_box(block, bounds, built, include_air, layers),
                region@ == RegionView::empty().with_layers(layers),
                within(region@, k * area),
                spelled(properties, region.seen@, region.palette@),
            decreases height - k,
        {
            let y: i32 = bounds.low.y + k;
            let ghost base = region@;
            let ghost mut rows: Seq<Seq<Sight>> = Seq::empty();
            proof {
                layers_fit(bounds, k as int);
                layers_fit(bounds, k + 1);
            }
            if y < built.0 || y >= built.1 {
                region.beyond(blocks);
                proof {
                    let sight = Sight::Beyond(area);
                    rows = seq![seq![sight]];
                    assert(rows.drop_last() =~= Seq::empty());
                    assert(rows.last().drop_last() =~= Seq::empty());
                    assert(rows.last().last() == sight);
                    reveal_with_fuel(RegionView::with_layer, 2);
                    reveal_with_fuel(RegionView::with_row, 2);
                    assert(region@ == base.with_layer(rows));
                }
            } else {
                let mut j: i32 = 0;
                while j < depth
                    invariant
                        0 <= k < height,
                        0 <= j <= depth,
                        bounds.countable(),
                        width == bounds.width(),
                        height == bounds.height(),
                        depth == bounds.depth(),
                        area == bounds.width() * bounds.depth(),
                        y == bounds.low.y + k,
                        forall|at: BlockPos| call_requires(block, (at,)),
                        forall|id: u32| call_requires(properties, (id,)),
                        rows.len() == j,
                        forall|b: int|
                            0 <= b < rows.len() ==> (#[trigger] rows[b]).len() == bounds.width()
                                && saw_row(
                                block,
                                bounds.low,
                                bounds.low.z + b,
                                y as int,
                                include_air,
                                rows[b],
                            ),
                        region@ == base.with_layer(rows),
                        within(region@, k * area + j * width),
                        spelled(properties, region.seen@, region.palette@),
                    decreases depth - j,
                {
                    let z: i32 = bounds.low.z + j;
                    let ghost start = region@;
                    let ghost mut row: Seq<Sight> = Seq::empty();
                    let mut i: i32 = 0;
                    while i < width
                        invariant
                            0 <= k < height,
                            0 <= j < depth,
                            0 <= i <= width,
                            bounds.countable(),
                            width == bounds.width(),
                            height == bounds.height(),
                            depth == bounds.depth(),
                            area == bounds.width() * bounds.depth(),
                            y == bounds.low.y + k,
                            z == bounds.low.z + j,
                            forall|at: BlockPos| call_requires(block, (at,)),
                            forall|id: u32| call_requires(properties, (id,)),
                            row.len() == i,
                            saw_row(block, bounds.low, z as int, y as int, include_air, row),
                            region@ == start.with_row(row),
                            within(region@, k * area + j * width + i),
                            spelled(properties, region.seen@, region.palette@),
                        decreases width - i,
                    {
                        let at = BlockPos { x: bounds.low.x + i, y, z };
                        let ghost before = region@;
                        let ghost so_far = k * area + j * width + i;
                        proof {
                            so_far_is_less(bounds, k as int, j as int, i as int);
                            assert(0 <= k * area) by {
                                layers_fit(bounds, k as int);
                            }
                            assert(0 <= j * width) by (nonlinear_arith)
                                requires
                                    0 <= j,
                                    0 <= width,
                            ;
                        }
                        let ghost mut sight = Sight::Unloaded;
                        match block(at) {
                            None => {
                                region.unloaded();
                            },
                            Some(state) => {
                                if !include_air && is_air(state.kind) {
                                    region.dropped();
                                    proof {
                                        sight = Sight::Left(state);
                                    }
                                } else {
                                    region.push(state, &properties);
                                    proof {
                                        sight = Sight::Block(state);
                                        pushing_counts_one(before, state, so_far);
                                    }
                                }
                            },
                        }
                        proof {
                            let ghost next = row.push(sight);
                            assert(next.drop_last() =~= row);
                            assert(next.last() == sight);
                            assert(saw(block, at, include_air, sight));
                            assert forall|b: int| 0 <= b < next.len() implies saw(
                                block,
                                BlockPos {
                                    x: (bounds.low.x + b) as i32,
                                    y: y as i32,
                                    z: z as i32,
                                },
                                include_air,
                                #[trigger] next[b],
                            ) by {
                                if b < row.len() {
                                    assert(next[b] == row[b]);
                                }
                            }
                            row = next;
                        }
                        i += 1;
                    }
                    proof {
                        let ghost next = rows.push(row);
                        assert(next.drop_last() =~= rows);
                        assert(next.last() == row);
                        rows = next;
                        assert(j * width + width == (j + 1) * width) by (nonlinear_arith);
                    }
                    j += 1;
                }
                proof {
                    assert(depth * width == area) by (nonlinear_arith)
                        requires
                            area == width * depth,
                    ;
                }
            }
            proof {
                let ghost next = layers.push(rows);
                assert(next.drop_last() =~= layers);
                assert(next.last() == rows);
                assert(saw_layer(block, bounds, built, y as int, include_air, rows));
                assert forall|b: int| 0 <= b < next.len() implies saw_layer(
                    block,
                    bounds,
                    built,
                    bounds.low.y + b,
                    include_air,
                    #[trigger] next[b],
                ) by {
                    if b < layers.len() {
                        assert(next[b] == layers[b]);
                    }
                }
                layers = next;
            }
            k += 1;
        }
        region
    }
}

pub open spec fn run_docs(runs: Seq<(int, int)>) -> Seq<Doc> {
    Seq::new(
        runs.len(),
        |i: int|
            Doc::object().with("block"@, Doc::number(runs[i].0)).with(
                "count"@,
                Doc::number(runs[i].1),
            ),
    )
}

pub open spec fn name_docs(palette: Seq<String>) -> Seq<Doc> {
    Seq::new(palette.len(), |i: int| Doc::Text(palette[i]@))
}

/// The region as the server's renderer takes it. Every name below is one the renderer maps by hand,
/// so a key worded differently here is not a field it misses but a region it draws nothing of at all.
pub fn answer(bounds: Bounds, region: &Region) -> (r: Answer)
    requires
        bounds.countable(),
    ensures
        r@ == AnswerView::full(
            "region "@ + written_of(bounds.low) + " to "@ + written_of(bounds.high),
            Doc::object().with("from"@, point_of(bounds.low)).with("to"@, point_of(bounds.high)).with(
                "size"@,
                Doc::object().with("x"@, Doc::number(bounds.width())).with(
                    "y"@,
                    Doc::number(bounds.height()),
                ).with("z"@, Doc::number(bounds.depth())),
            ).with("blocks"@, Doc::number(bounds.volume())).with(
                "palette"@,
                Doc::list(name_docs(region.palette@)),
            ).with("runs"@, Doc::list(run_docs(region@.runs))).with(
                "missing"@,
                Doc::number(region@.missing),
            ).with("outside"@, Doc::number(region@.outside)),
        ),
{
    let (width, height, depth) = bounds.size();
    let mut palette: Vec<Json> = Vec::new();
    let mut i: usize = 0;
    while i < region.palette.len()
        invariant
            i <= region.palette@.len(),
            palette@.len() == i,
            forall|k: int|
                0 <= k < i ==> (#[trigger] palette@[k])@ == name_docs(region.palette@)[k],
        decreases region.palette@.len() - i,
    {
        palette.push(Json::Text(region.palette[i].clone()));
        i += 1;
    }
    let mut runs: Vec<Json> = Vec::new();
    let mut j: usize = 0;
    while j < region.runs.len()
        invariant
            j <= region.runs@.len(),
            runs@.len() == j,
            forall|k: int| 0 <= k < j ==> (#[trigger] runs@[k])@ == run_docs(region@.runs)[k],
        decreases region.runs@.len() - j,
    {
        let run = region.runs[j];
        proof {
            assert(region@.runs[j as int] == (run.block as int, run.count as int));
        }
        runs.push(
            Json::object().with("block", Json::count(run.block as u64)).with(
                "count",
                Json::count(run.count),
            ),
        );
        j += 1;
    }
    proof {
        assert(docs(palette@) =~= name_docs(region.palette@));
        assert(docs(runs@) =~= run_docs(region@.runs));
        let area = width as int * height as int;
        assert(0 <= area <= 0x7fff_ffff * 0x7fff_ffff) by (nonlinear_arith)
            requires
                0 <= width <= 0x7fff_ffff,
                0 <= height <= 0x7fff_ffff,
                area == width as int * height as int,
        ;
        assert(0 <= area * depth) by (nonlinear_arith)
            requires
                0 <= area,
                0 <= depth,
        ;
    }
    let blocks: i64 = width as i64 * height as i64 * depth as i64;
    Answer::data(
        cat4(
            "region ",
            written(bounds.low).as_str(),
            " to ",
            written(bounds.high).as_str(),
        ),
        Json::object().with("from", point(bounds.low)).with("to", point(bounds.high)).with(
            "size",
            Json::object().with("x", Json::number(width as i64)).with(
                "y",
                Json::number(height as i64),
            ).with("z", Json::number(depth as i64)),
        ).with("blocks", Json::number(blocks)).with("palette", Json::list(palette)).with(
            "runs",
            Json::list(runs),
        ).with("missing", Json::count(region.missing)).with(
            "outside",
            Json::count(region.outside),
        ),
    )
}

/// Whether a region holds together: each state is in the palette once, each run is of a state that is
/// there, and an open run is of the state it was opened with.
pub open spec fn whole(region: RegionView) -> bool {
    &&& forall|i: int, j: int|
        0 <= i < j < region.seen.len() ==> (#[trigger] region.seen[i]).id != (
        #[trigger] region.seen[j]).id
    &&& forall|i: int|
        0 <= i < region.runs.len() ==> 0 <= (#[trigger] region.runs[i]).0 < region.seen.len()
            && region.runs[i].1 >= 1
    &&& region.open matches Some(id) ==> region.runs.len() > 0
        && region.seen[region.runs.last().0].id == id
}

/// The blocks that runs stand for, one after another, each by its state's number.
pub open spec fn blocks_in(runs: Seq<(int, int)>, seen: Seq<State>) -> Seq<u32>
    decreases runs.len(),
{
    if runs.len() == 0 {
        Seq::empty()
    } else {
        let (block, count) = runs.last();
        blocks_in(runs.drop_last(), seen) + Seq::new(count as nat, |i: int| seen[block].id)
    }
}

/// The block a sight reports, where it reports one.
pub open spec fn reported(sight: Sight) -> Seq<u32> {
    match sight {
        Sight::Block(state) => seq![state.id],
        _ => Seq::empty(),
    }
}

pub open spec fn reported_row(row: Seq<Sight>) -> Seq<u32>
    decreases row.len(),
{
    if row.len() == 0 {
        Seq::empty()
    } else {
        reported_row(row.drop_last()) + reported(row.last())
    }
}

pub open spec fn reported_layer(rows: Seq<Seq<Sight>>) -> Seq<u32>
    decreases rows.len(),
{
    if rows.len() == 0 {
        Seq::empty()
    } else {
        reported_layer(rows.drop_last()) + reported_row(rows.last())
    }
}

pub open spec fn reported_in(layers: Seq<Seq<Seq<Sight>>>) -> Seq<u32>
    decreases layers.len(),
{
    if layers.len() == 0 {
        Seq::empty()
    } else {
        reported_in(layers.drop_last()) + reported_layer(layers.last())
    }
}

/// How many blocks a sight leaves out.
pub open spec fn left_out(sight: Sight) -> int {
    match sight {
        Sight::Left(_) => 1,
        _ => 0,
    }
}

pub open spec fn left_row(row: Seq<Sight>) -> int
    decreases row.len(),
{
    if row.len() == 0 {
        0
    } else {
        left_row(row.drop_last()) + left_out(row.last())
    }
}

pub open spec fn left_layer(rows: Seq<Seq<Sight>>) -> int
    decreases rows.len(),
{
    if rows.len() == 0 {
        0
    } else {
        left_layer(rows.drop_last()) + left_row(rows.last())
    }
}

pub open spec fn left_in(layers: Seq<Seq<Seq<Sight>>>) -> int
    decreases layers.len(),
{
    if layers.len() == 0 {
        0
    } else {
        left_in(layers.drop_last()) + left_layer(layers.last())
    }
}

/// How many positions a region accounts for.
pub open spec fn accounted(region: RegionView) -> int {
    blocks_in(region.runs, region.seen).len() + region.missing + region.outside
}

proof fn more_states_change_no_run(runs: Seq<(int, int)>, seen: Seq<State>, state: State)
    requires
        forall|i: int| 0 <= i < runs.len() ==> 0 <= (#[trigger] runs[i]).0 < seen.len(),
    ensures
        blocks_in(runs, seen.push(state)) == blocks_in(runs, seen),
    decreases runs.len(),
{
    if runs.len() > 0 {
        more_states_change_no_run(runs.drop_last(), seen, state);
        let (block, count) = runs.last();
        assert(runs[runs.len() - 1] == runs.last());
        assert(Seq::new(count as nat, |i: int| seen.push(state)[block].id) =~= Seq::new(
            count as nat,
            |i: int| seen[block].id,
        ));
    }
}

proof fn seen_at_is_there(seen: Seq<State>, id: u32, from: int)
    requires
        0 <= from,
    ensures
        match seen_at(seen, id, from) {
            Some(at) => from <= at < seen.len() && seen[at].id == id,
            None => forall|i: int| from <= i < seen.len() ==> (#[trigger] seen[i]).id != id,
        },
    decreases seen.len() - from,
{
    if from < seen.len() {
        seen_at_is_there(seen, id, from + 1);
    }
}

/// A block that is pushed is one more block at the end, whatever run it goes into, and a region that
/// holds together goes on doing so.
pub proof fn a_block_is_added_at_the_end(region: RegionView, state: State)
    requires
        whole(region),
    ensures
        whole(region.pushed(state)),
        blocks_in(region.pushed(state).runs, region.pushed(state).seen) == blocks_in(
            region.runs,
            region.seen,
        ).push(state.id),
        region.pushed(state).missing == region.missing,
        region.pushed(state).outside == region.outside,
{
    let next = region.pushed(state);
    let told = blocks_in(region.runs, region.seen);
    if region.runs.len() > 0 && region.open == Some(state.id) {
        let (block, count) = region.runs.last();
        assert(region.runs[region.runs.len() - 1] == region.runs.last());
        assert(next.runs.drop_last() =~= region.runs.drop_last());
        assert(next.runs.last() == (block, count + 1));
        let seen = region.seen;
        assert(blocks_in(next.runs, seen) =~= told.push(state.id));
        assert forall|i: int| 0 <= i < next.runs.len() implies 0 <= (#[trigger] next.runs[i]).0
            < next.seen.len() && next.runs[i].1 >= 1 by {
            if i < region.runs.len() - 1 {
                assert(next.runs[i] == region.runs[i]);
            }
        }
    } else {
        seen_at_is_there(region.seen, state.id, 0);
        let at = match seen_at(region.seen, state.id, 0) {
            Some(at) => at,
            None => region.seen.len() as int,
        };
        if seen_at(region.seen, state.id, 0) is None {
            more_states_change_no_run(region.runs, region.seen, state);
        }
        assert(next.runs.drop_last() =~= region.runs);
        assert(next.runs.last() == (at, 1int));
        assert(next.seen[at].id == state.id);
        assert(blocks_in(next.runs, next.seen) =~= told.push(state.id));
        assert forall|i: int| 0 <= i < next.runs.len() implies 0 <= (#[trigger] next.runs[i]).0
            < next.seen.len() && next.runs[i].1 >= 1 by {
            if i < region.runs.len() {
                assert(next.runs[i] == region.runs[i]);
            }
        }
        assert forall|i: int, j: int| 0 <= i < j < next.seen.len() implies (
        #[trigger] next.seen[i]).id != (#[trigger] next.seen[j]).id by {
            if j < region.seen.len() {
                assert(region.seen[i].id != region.seen[j].id);
            }
        }
    }
}

/// How many positions a sight is of.
pub open spec fn positions(sight: Sight) -> int {
    match sight {
        Sight::Beyond(blocks) => blocks,
        _ => 1,
    }
}

proof fn one_sight(region: RegionView, sight: Sight)
    requires
        whole(region),
    ensures
        whole(region.with(sight)),
        blocks_in(region.with(sight).runs, region.with(sight).seen) == blocks_in(
            region.runs,
            region.seen,
        ) + reported(sight),
        accounted(region.with(sight)) + left_out(sight) == accounted(region) + positions(sight),
{
    let told = blocks_in(region.runs, region.seen);
    match sight {
        Sight::Block(state) => {
            a_block_is_added_at_the_end(region, state);
            assert(told.push(state.id) =~= told + reported(sight));
        },
        _ => {
            assert(told =~= told + reported(sight));
        },
    }
}

/// How many positions a row is of.
pub open spec fn row_positions(row: Seq<Sight>) -> int
    decreases row.len(),
{
    if row.len() == 0 {
        0
    } else {
        row_positions(row.drop_last()) + positions(row.last())
    }
}

proof fn one_row(region: RegionView, row: Seq<Sight>)
    requires
        whole(region),
    ensures
        whole(region.with_row(row)),
        blocks_in(region.with_row(row).runs, region.with_row(row).seen) == blocks_in(
            region.runs,
            region.seen,
        ) + reported_row(row),
        accounted(region.with_row(row)) + left_row(row) == accounted(region) + row_positions(row),
    decreases row.len(),
{
    let told = blocks_in(region.runs, region.seen);
    if row.len() == 0 {
        assert(told =~= told + reported_row(row));
    } else {
        one_row(region, row.drop_last());
        one_sight(region.with_row(row.drop_last()), row.last());
        assert(told + reported_row(row.drop_last()) + reported(row.last()) =~= told + reported_row(
            row,
        ));
    }
}

pub open spec fn layer_positions(rows: Seq<Seq<Sight>>) -> int
    decreases rows.len(),
{
    if rows.len() == 0 {
        0
    } else {
        layer_positions(rows.drop_last()) + row_positions(rows.last())
    }
}

proof fn one_layer(region: RegionView, rows: Seq<Seq<Sight>>)
    requires
        whole(region),
    ensures
        whole(region.with_layer(rows)),
        blocks_in(region.with_layer(rows).runs, region.with_layer(rows).seen) == blocks_in(
            region.runs,
            region.seen,
        ) + reported_layer(rows),
        accounted(region.with_layer(rows)) + left_layer(rows) == accounted(region)
            + layer_positions(rows),
    decreases rows.len(),
{
    let told = blocks_in(region.runs, region.seen);
    if rows.len() == 0 {
        assert(told =~= told + reported_layer(rows));
    } else {
        one_layer(region, rows.drop_last());
        one_row(region.with_layer(rows.drop_last()), rows.last());
        assert(told + reported_layer(rows.drop_last()) + reported_row(rows.last()) =~= told
            + reported_layer(rows));
    }
}

pub open spec fn all_positions(layers: Seq<Seq<Seq<Sight>>>) -> int
    decreases layers.len(),
{
    if layers.len() == 0 {
        0
    } else {
        all_positions(layers.drop_last()) + layer_positions(layers.last())
    }
}

/// The runs of a region stand for just the blocks that are reported, in the order they were read, and
/// its palette holds each state once.
pub proof fn the_runs_tell_every_block(layers: Seq<Seq<Seq<Sight>>>)
    ensures
        ({
            let region = RegionView::empty().with_layers(layers);
            &&& whole(region)
            &&& blocks_in(region.runs, region.seen) == reported_in(layers)
            &&& accounted(region) + left_in(layers) == all_positions(layers)
        }),
    decreases layers.len(),
{
    if layers.len() > 0 {
        the_runs_tell_every_block(layers.drop_last());
        one_layer(RegionView::empty().with_layers(layers.drop_last()), layers.last());
    }
}

proof fn positions_of_a_row<F: Fn(BlockPos) -> Option<State>>(
    block: F,
    low: BlockPos,
    z: int,
    y: int,
    air: bool,
    row: Seq<Sight>,
)
    requires
        saw_row(block, low, z, y, air, row),
    ensures
        row_positions(row) == row.len(),
    decreases row.len(),
{
    if row.len() > 0 {
        let rest = row.drop_last();
        assert forall|i: int| 0 <= i < rest.len() implies saw(
            block,
            BlockPos { x: (low.x + i) as i32, y: y as i32, z: z as i32 },
            air,
            #[trigger] rest[i],
        ) by {
            assert(rest[i] == row[i]);
        }
        positions_of_a_row(block, low, z, y, air, rest);
        assert(row[row.len() - 1] == row.last());
    }
}

proof fn positions_of_rows(rows: Seq<Seq<Sight>>, width: int)
    requires
        forall|j: int| 0 <= j < rows.len() ==> row_positions(#[trigger] rows[j]) == width,
    ensures
        layer_positions(rows) == rows.len() * width,
    decreases rows.len(),
{
    if rows.len() > 0 {
        let rest = rows.drop_last();
        assert forall|j: int| 0 <= j < rest.len() implies row_positions(#[trigger] rest[j])
            == width by {
            assert(rest[j] == rows[j]);
        }
        positions_of_rows(rest, width);
        assert(rows[rows.len() - 1] == rows.last());
        let n = rest.len() as int;
        assert((n + 1) * width == n * width + width) by (nonlinear_arith);
    } else {
        assert(rows.len() * width == 0) by (nonlinear_arith)
            requires
                rows.len() == 0,
        ;
    }
}

proof fn positions_of_a_layer<F: Fn(BlockPos) -> Option<State>>(
    block: F,
    bounds: Bounds,
    built: (i32, i32),
    y: int,
    air: bool,
    rows: Seq<Seq<Sight>>,
)
    requires
        saw_layer(block, bounds, built, y, air, rows),
    ensures
        layer_positions(rows) == bounds.width() * bounds.depth(),
{
    if built.0 <= y < built.1 {
        assert forall|j: int| 0 <= j < rows.len() implies row_positions(#[trigger] rows[j])
            == bounds.width() by {
            positions_of_a_row(block, bounds.low, bounds.low.z + j, y, air, rows[j]);
        }
        positions_of_rows(rows, bounds.width());
        let (w, d) = (bounds.width(), bounds.depth());
        assert(d * w == w * d) by (nonlinear_arith);
    } else {
        let sight = Sight::Beyond(bounds.width() * bounds.depth());
        assert(rows.drop_last() =~= Seq::empty());
        assert(rows.last() == seq![sight]);
        assert(seq![sight].drop_last() =~= Seq::empty());
        assert(seq![sight].last() == sight);
        reveal_with_fuel(layer_positions, 2);
        reveal_with_fuel(row_positions, 2);
    }
}

/// Every position of a box is accounted for once: in a run, as missing, as outside, or as air left
/// out.
pub proof fn every_position_is_accounted_for<F: Fn(BlockPos) -> Option<State>>(
    block: F,
    bounds: Bounds,
    built: (i32, i32),
    air: bool,
    layers: Seq<Seq<Seq<Sight>>>,
)
    requires
        layers.len() == bounds.height(),
        saw_box(block, bounds, built, air, layers),
    ensures
        accounted(RegionView::empty().with_layers(layers)) + left_in(layers) == bounds.volume(),
        air ==> left_in(layers) == 0,
{
    the_runs_tell_every_block(layers);
    positions_of_layers(block, bounds, built, air, layers);
    let (w, h, d) = (bounds.width(), bounds.height(), bounds.depth());
    assert(h * (w * d) == w * h * d) by (nonlinear_arith);
    if air {
        nothing_left_out(block, bounds, built, layers);
    }
}

proof fn positions_of_layers<F: Fn(BlockPos) -> Option<State>>(
    block: F,
    bounds: Bounds,
    built: (i32, i32),
    air: bool,
    layers: Seq<Seq<Seq<Sight>>>,
)
    requires
        saw_box(block, bounds, built, air, layers),
    ensures
        all_positions(layers) == layers.len() * (bounds.width() * bounds.depth()),
    decreases layers.len(),
{
    let area = bounds.width() * bounds.depth();
    if layers.len() > 0 {
        let rest = layers.drop_last();
        assert forall|k: int| 0 <= k < rest.len() implies saw_layer(
            block,
            bounds,
            built,
            bounds.low.y + k,
            air,
            #[trigger] rest[k],
        ) by {
            assert(rest[k] == layers[k]);
        }
        positions_of_layers(block, bounds, built, air, rest);
        assert(layers[layers.len() - 1] == layers.last());
        positions_of_a_layer(
            block,
            bounds,
            built,
            bounds.low.y + layers.len() - 1,
            air,
            layers.last(),
        );
        let n = rest.len() as int;
        assert((n + 1) * area == n * area + area) by (nonlinear_arith);
    } else {
        assert(layers.len() * area == 0) by (nonlinear_arith)
            requires
                layers.len() == 0,
        ;
    }
}

proof fn nothing_left_in_a_row<F: Fn(BlockPos) -> Option<State>>(
    block: F,
    low: BlockPos,
    z: int,
    y: int,
    row: Seq<Sight>,
)
    requires
        saw_row(block, low, z, y, true, row),
    ensures
        left_row(row) == 0,
    decreases row.len(),
{
    if row.len() > 0 {
        let rest = row.drop_last();
        assert forall|i: int| 0 <= i < rest.len() implies saw(
            block,
            BlockPos { x: (low.x + i) as i32, y: y as i32, z: z as i32 },
            true,
            #[trigger] rest[i],
        ) by {
            assert(rest[i] == row[i]);
        }
        nothing_left_in_a_row(block, low, z, y, rest);
        assert(row[row.len() - 1] == row.last());
    }
}

proof fn nothing_left_in_rows(rows: Seq<Seq<Sight>>)
    requires
        forall|j: int| 0 <= j < rows.len() ==> left_row(#[trigger] rows[j]) == 0,
    ensures
        left_layer(rows) == 0,
    decreases rows.len(),
{
    if rows.len() > 0 {
        let rest = rows.drop_last();
        assert forall|j: int| 0 <= j < rest.len() implies left_row(#[trigger] rest[j]) == 0 by {
            assert(rest[j] == rows[j]);
        }
        nothing_left_in_rows(rest);
        assert(rows[rows.len() - 1] == rows.last());
    }
}

proof fn nothing_left_out<F: Fn(BlockPos) -> Option<State>>(
    block: F,
    bounds: Bounds,
    built: (i32, i32),
    layers: Seq<Seq<Seq<Sight>>>,
)
    requires
        saw_box(block, bounds, built, true, layers),
    ensures
        left_in(layers) == 0,
    decreases layers.len(),
{
    if layers.len() > 0 {
        let rest = layers.drop_last();
        assert forall|k: int| 0 <= k < rest.len() implies saw_layer(
            block,
            bounds,
            built,
            bounds.low.y + k,
            true,
            #[trigger] rest[k],
        ) by {
            assert(rest[k] == layers[k]);
        }
        nothing_left_out(block, bounds, built, rest);
        let rows = layers.last();
        let y = bounds.low.y + layers.len() - 1;
        assert(layers[layers.len() - 1] == rows);
        assert forall|j: int| 0 <= j < rows.len() implies left_row(#[trigger] rows[j]) == 0 by {
            if built.0 <= y < built.1 {
                nothing_left_in_a_row(block, bounds.low, bounds.low.z + j, y, rows[j]);
            } else {
                let sight = Sight::Beyond(bounds.width() * bounds.depth());
                assert(rows[j] == seq![sight]);
                assert(seq![sight].drop_last() =~= Seq::empty());
                assert(seq![sight].last() == sight);
                reveal_with_fuel(left_row, 2);
            }
        }
        nothing_left_in_rows(rows);
    }
}

/// A box is read from two corners, whichever is named first, and keeps its air unless it is told not to.
pub proof fn a_box_is_read_from_its_corners(one: BlockPos, other: BlockPos)
    ensures
        ({
            let bounds = box_of(one, other);
            &&& bounds.low.x <= one.x <= bounds.high.x && bounds.low.x <= other.x <= bounds.high.x
            &&& bounds.low.y <= one.y <= bounds.high.y && bounds.low.y <= other.y <= bounds.high.y
            &&& bounds.low.z <= one.z <= bounds.high.z && bounds.low.z <= other.z <= bounds.high.z
            &&& (bounds.low.x == one.x && bounds.high.x == other.x) || (bounds.low.x == other.x
                && bounds.high.x == one.x)
            &&& (bounds.low.y == one.y && bounds.high.y == other.y) || (bounds.low.y == other.y
                && bounds.high.y == one.y)
            &&& (bounds.low.z == one.z && bounds.high.z == other.z) || (bounds.low.z == other.z
                && bounds.high.z == one.z)
            &&& bounds.width() == bounds.high.x - bounds.low.x + 1
            &&& bounds.height() == bounds.high.y - bounds.low.y + 1
            &&& bounds.depth() == bounds.high.z - bounds.low.z + 1
        }),
{
}

/// What is asked for is the box between the two corners, with its air unless that is left out.
pub proof fn a_region_is_what_was_asked_for(args: Doc, one: BlockPos, other: BlockPos)
    requires
        place_of(
            cut_of(given(args, "from"@), "x"@),
            cut_of(given(args, "from"@), "y"@),
            cut_of(given(args, "from"@), "z"@),
        ) == Ok::<BlockPos, FailureView>(one),
        place_of(
            cut_of(given(args, "to"@), "x"@),
            cut_of(given(args, "to"@), "y"@),
            cut_of(given(args, "to"@), "z"@),
        ) == Ok::<BlockPos, FailureView>(other),
    ensures
        args.at("includeAir"@) is None ==> asked_of(args) == Ok::<(Bounds, bool), FailureView>(
            (box_of(one, other), true),
        ),
        args.bool_at("includeAir"@) matches Some(air) ==> asked_of(args) == Ok::<
            (Bounds, bool),
            FailureView,
        >((box_of(one, other), air)),
{
}

/// What is seen at a place is counted as what it is: a block in a run, one left out in none, and those
/// with no chunk and past the build limits apart.
pub proof fn each_place_is_counted_as_what_it_is(region: RegionView, sight: Sight, state: State, blocks: int)
    ensures
        region.with(Sight::Unloaded).missing == region.missing + 1,
        region.with(Sight::Unloaded).outside == region.outside,
        region.with(Sight::Beyond(blocks)).outside == region.outside + blocks,
        region.with(Sight::Beyond(blocks)).missing == region.missing,
        region.with(Sight::Left(state)).missing == region.missing && region.with(
            Sight::Left(state),
        ).outside == region.outside,
        !(sight is Block) ==> region.with(sight).runs == region.runs && region.with(sight).open is None
            && region.with(sight).seen == region.seen,
        ({
            let after = region.with(Sight::Block(state));
            &&& after.missing == region.missing && after.outside == region.outside
            &&& after.open == Some(state.id) || (region.runs.len() > 0 && region.open == Some(state.id))
            &&& region.runs.len() > 0 && region.open == Some(state.id) ==> after.runs.len()
                == region.runs.len() && after.runs.last().1 == region.runs.last().1 + 1
                && after.runs.last().0 == region.runs.last().0
            &&& region.open != Some(state.id) ==> after.runs.len() == region.runs.len() + 1
                && after.runs.last().1 == 1
        }),
{
}

/// A place is read at its own coordinates: along x in a row, along z from row to row, and up from layer
/// to layer; air is left out only where it is not asked for.
pub proof fn a_place_is_read_at_its_own_coordinates<F: Fn(BlockPos) -> Option<State>>(
    block: F,
    bounds: Bounds,
    built: (i32, i32),
    air: bool,
    layers: Seq<Seq<Seq<Sight>>>,
    x: int,
    y: int,
    z: int,
)
    requires
        saw_box(block, bounds, built, air, layers),
        0 <= y < layers.len(),
        built.0 <= bounds.low.y + y < built.1,
        0 <= z < bounds.depth(),
        0 <= x < bounds.width(),
        bounds.ordered(),
    ensures
        ({
            let at = BlockPos {
                x: (bounds.low.x + x) as i32,
                y: (bounds.low.y + y) as i32,
                z: (bounds.low.z + z) as i32,
            };
            &&& layers[y].len() == bounds.depth()
            &&& layers[y][z].len() == bounds.width()
            &&& match layers[y][z][x] {
                Sight::Unloaded => call_ensures(block, (at,), None),
                Sight::Left(state) => call_ensures(block, (at,), Some(state)) && !air && airy(
                    state.kind@,
                ),
                Sight::Block(state) => call_ensures(block, (at,), Some(state)) && (air || !airy(
                    state.kind@,
                )),
                Sight::Beyond(_) => false,
            }
        }),
{
    assert(saw_layer(block, bounds, built, bounds.low.y + y, air, layers[y]));
    assert(saw_row(block, bounds.low, bounds.low.z + z, bounds.low.y + y, air, layers[y][z]));
    assert(saw(
        block,
        BlockPos {
            x: (bounds.low.x + x) as i32,
            y: (bounds.low.y + y) as i32,
            z: (bounds.low.z + z) as i32,
        },
        air,
        layers[y][z][x],
    ));
}

/// A run is told by its block's place in the palette and how many there are, and the palette by name.
pub proof fn a_run_is_told_by_block_and_count(runs: Seq<(int, int)>, palette: Seq<String>, i: int)
    ensures
        0 <= i < runs.len() ==> run_docs(runs)[i].at("block"@) == Some(Doc::number(runs[i].0))
            && run_docs(runs)[i].at("count"@) == Some(Doc::number(runs[i].1)),
        run_docs(runs).len() == runs.len(),
        name_docs(palette).len() == palette.len(),
        0 <= i < palette.len() ==> name_docs(palette)[i] == Doc::Text(palette[i]@),
{
    broadcast use {a_field_reads_back, an_empty_object_has_nothing};
    reveal_strlit("block");
    reveal_strlit("count");
    assert("block"@[0] != "count"@[0]);
}

} // verus!
