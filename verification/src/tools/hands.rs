//! What the bot does with its hands: digging, placing, and using what it holds.
use vstd::prelude::*;

use crate::calls::{Answer, AnswerView, Failure, FailureView};
use crate::json::Json;
use crate::place::BlockPos;
use crate::tools::args::{nat_or, nat_or_of, plain, written, written_of};
use crate::tools::blocks::{airy, is_air};
use crate::tools::stacks::Stack;
use crate::words::{
    bare, cat2, cat3, cat4, cat5, cat6, cat7, dec, decimal, literals, lowercase, lowercase_of, same,
    signed,
};

verus! {

/// Long enough for a hand on stone, short enough to say so rather than sit on the deadline.
pub const DIG_PATIENCE_TICKS: u32 = 600;

/// What a creative client waits between blocks it breaks, and so between asking again for one that
/// did not go.
pub const DIG_RETRY_TICKS: u32 = 5;

/// A face a block can be placed against.
#[derive(Clone, Copy, Debug, PartialEq, Eq, Structural)]
pub enum Face {
    Down,
    Up,
    North,
    South,
    East,
    West,
}

/// The faces in the order they are tried after the caller's own.
pub open spec fn faces() -> Seq<Face> {
    seq![Face::Down, Face::Up, Face::North, Face::South, Face::East, Face::West]
}

fn all_faces() -> (r: [Face; 6])
    ensures
        r@ == faces(),
{
    let r = [Face::Down, Face::Up, Face::North, Face::South, Face::East, Face::West];
    proof {
        assert(r@ =~= faces());
    }
    r
}

pub open spec fn name_of(face: Face) -> Seq<char> {
    match face {
        Face::Down => "down"@,
        Face::Up => "up"@,
        Face::North => "north"@,
        Face::South => "south"@,
        Face::West => "west"@,
        Face::East => "east"@,
    }
}

pub fn face_name(face: Face) -> (r: &'static str)
    ensures
        r@ == name_of(face),
{
    match face {
        Face::Down => "down",
        Face::Up => "up",
        Face::North => "north",
        Face::South => "south",
        Face::West => "west",
        Face::East => "east",
    }
}

/// The first face from a place on that has a name.
pub open spec fn face_called(name: Seq<char>, from: int) -> Option<Face>
    decreases 6 - from,
{
    if from < 0 || from >= 6 {
        None
    } else if name_of(faces()[from]) == name {
        Some(faces()[from])
    } else {
        face_called(name, from + 1)
    }
}

/// The face a caller named, whatever the case.
pub fn face(name: &str) -> (r: Result<Face, Failure>)
    ensures
        match r {
            Ok(face) => face_called(lowercase_of(name@), 0) == Some(face),
            Err(failure) => face_called(lowercase_of(name@), 0) is None && failure@
                == FailureView::misuse("unknown face "@ + name@),
        },
{
    let wanted = lowercase(name);
    let all = all_faces();
    let mut i: usize = 0;
    while i < 6
        invariant
            i <= 6,
            all@ == faces(),
            wanted@ == lowercase_of(name@),
            face_called(wanted@, 0) == face_called(wanted@, i as int),
        decreases 6 - i,
    {
        if same(face_name(all[i]), wanted.as_str()) {
            return Ok(all[i]);
        }
        i += 1;
    }
    Err(Failure::bad_args(cat2("unknown face ", name)))
}

/// The face that looks back.
pub open spec fn facing(face: Face) -> Face {
    match face {
        Face::Down => Face::Up,
        Face::Up => Face::Down,
        Face::North => Face::South,
        Face::South => Face::North,
        Face::East => Face::West,
        Face::West => Face::East,
    }
}

pub fn opposite(face: Face) -> (r: Face)
    ensures
        r == facing(face),
{
    match face {
        Face::Down => Face::Up,
        Face::Up => Face::Down,
        Face::North => Face::South,
        Face::South => Face::North,
        Face::East => Face::West,
        Face::West => Face::East,
    }
}

/// Whether a place has a neighbour on every side.
pub open spec fn inside(at: BlockPos) -> bool {
    i32::MIN < at.x < i32::MAX && i32::MIN < at.y < i32::MAX && i32::MIN < at.z < i32::MAX
}

/// The place on the other side of a face.
pub open spec fn beside(at: BlockPos, face: Face) -> BlockPos {
    match face {
        Face::Down => BlockPos { y: (at.y - 1) as i32, ..at },
        Face::Up => BlockPos { y: (at.y + 1) as i32, ..at },
        Face::North => BlockPos { z: (at.z - 1) as i32, ..at },
        Face::South => BlockPos { z: (at.z + 1) as i32, ..at },
        Face::West => BlockPos { x: (at.x - 1) as i32, ..at },
        Face::East => BlockPos { x: (at.x + 1) as i32, ..at },
    }
}

pub fn neighbour(at: BlockPos, face: Face) -> (r: BlockPos)
    requires
        inside(at),
    ensures
        r == beside(at, face),
{
    match face {
        Face::Down => BlockPos { x: at.x, y: at.y - 1, z: at.z },
        Face::Up => BlockPos { x: at.x, y: at.y + 1, z: at.z },
        Face::North => BlockPos { x: at.x, y: at.y, z: at.z - 1 },
        Face::South => BlockPos { x: at.x, y: at.y, z: at.z + 1 },
        Face::West => BlockPos { x: at.x - 1, y: at.y, z: at.z },
        Face::East => BlockPos { x: at.x + 1, y: at.y, z: at.z },
    }
}

/// The face that looks back leads back.
pub proof fn the_facing_side_leads_back(at: BlockPos, face: Face)
    requires
        inside(at),
    ensures
        beside(beside(at, face), facing(face)) == at,
        facing(facing(face)) == face,
{
}

/// What becomes of a block that is to be placed.
pub enum Placing {
    /// There is nothing to do.
    Already(Answer),
    /// It goes against the neighbour on this side.
    Against(Face),
}

/// The first of some faces from a place on whose neighbour is there. `around` are the kinds of the
/// neighbours, in the order of the faces.
pub open spec fn solid_from(around: Seq<Seq<char>>, preferred: Face, from: int) -> Option<Face>
    decreases 6 - from,
{
    if from < 0 || from >= 6 {
        None
    } else if faces()[from] != preferred && !airy(around[from]) {
        Some(faces()[from])
    } else {
        solid_from(around, preferred, from + 1)
    }
}

/// Where a face is in the order of the faces.
pub open spec fn rank(face: Face) -> int {
    match face {
        Face::Down => 0,
        Face::Up => 1,
        Face::North => 2,
        Face::South => 3,
        Face::East => 4,
        Face::West => 5,
    }
}

/// The face to place against: the caller's where there is a block, else the first there is.
pub open spec fn chosen(around: Seq<Seq<char>>, preferred: Face) -> Option<Face> {
    if !airy(around[rank(preferred)]) {
        Some(preferred)
    } else {
        solid_from(around, preferred, 0)
    }
}

/// Whether a place is one the bot stands in: at its feet, or its head above them.
pub open spec fn in_the_bot(at: BlockPos, feet: BlockPos) -> bool {
    at.x == feet.x && at.z == feet.z && (at.y == feet.y || at.y == feet.y + 1)
}

fn rank_of(face: Face) -> (r: usize)
    ensures
        r == rank(face),
        r < 6,
        faces()[r as int] == face,
{
    match face {
        Face::Down => 0,
        Face::Up => 1,
        Face::North => 2,
        Face::South => 3,
        Face::East => 4,
        Face::West => 5,
    }
}

/// Which neighbour a block is placed against. A block is never placed at a position: it is placed
/// against the face of a neighbour, and the server works out where it lands. The caller's face is
/// which neighbour to try first, not the only one. Standing in the space is the one placement a server
/// will never accept. `here` is the kind of block at the place, `around` are the kinds of its
/// neighbours in the order down, up, north, south, east and west.
pub fn placing(
    at: BlockPos,
    feet: BlockPos,
    preferred: Face,
    here: &str,
    around: [&'static str; 6],
) -> (r: Result<Placing, Failure>)
    ensures
        if in_the_bot(at, feet) {
            r matches Err(failure) && failure@ == FailureView::refusal(
                "INSIDE_THE_BOT"@,
                "Cannot place a block inside the bot itself"@,
            )
        } else if !airy(here@) {
            r matches Ok(Placing::Already(answer)) && answer@ == AnswerView::plain(
                written_of(at) + " already holds "@ + bare(here@) + "."@,
            )
        } else {
            match chosen(literals(around@), preferred) {
                Some(face) => r matches Ok(Placing::Against(side)) && side == face,
                None => r matches Err(failure) && failure@ == FailureView::refusal(
                    "NOTHING_TO_PLACE_AGAINST"@,
                    "No solid block next to "@ + written_of(at) + " to place against"@,
                ),
            }
        },
{
    if at.x == feet.x && at.z == feet.z && (at.y == feet.y || at.y as i64 == feet.y as i64 + 1) {
        return Err(
            Failure::refused(
                "INSIDE_THE_BOT",
                "Cannot place a block inside the bot itself".to_owned(),
            ),
        );
    }
    if !is_air(here) {
        return Ok(
            Placing::Already(
                Answer::text(
                    cat4(written(at).as_str(), " already holds ", plain(here), "."),
                ),
            ),
        );
    }
    let ghost kinds = literals(around@);
    let first: usize = rank_of(preferred);
    proof {
        assert(kinds[first as int] == around@[first as int]@);
    }
    if !is_air(around[first]) {
        return Ok(Placing::Against(preferred));
    }
    let all = all_faces();
    let mut i: usize = 0;
    while i < 6
        invariant
            i <= 6,
            all@ == faces(),
            kinds == literals(around@),
            airy(kinds[rank(preferred)]),
            solid_from(kinds, preferred, 0) == solid_from(kinds, preferred, i as int),
            !in_the_bot(at, feet),
            airy(here@),
        decreases 6 - i,
    {
        proof {
            assert(kinds[i as int] == around@[i as int]@);
        }
        if all[i] != preferred && !is_air(around[i]) {
            return Ok(Placing::Against(all[i]));
        }
        i += 1;
    }
    Err(
        Failure::refused(
            "NOTHING_TO_PLACE_AGAINST",
            cat3("No solid block next to ", written(at).as_str(), " to place against"),
        ),
    )
}

/// A block is placed against one that is there, and against the caller's own face wherever there is a
/// block on that side.
pub proof fn placed_against_something(around: Seq<Seq<char>>, preferred: Face)
    requires
        around.len() == 6,
    ensures
        match chosen(around, preferred) {
            Some(face) => !airy(around[rank(face)]) && (!airy(around[rank(preferred)]) ==> face
                == preferred),
            None => forall|face: Face| airy(around[#[trigger] rank(face)]),
        },
{
    first_solid(around, preferred, 0);
    assert forall|face: Face| faces()[#[trigger] rank(face)] == face by {}
}

proof fn first_solid(around: Seq<Seq<char>>, preferred: Face, from: int)
    requires
        around.len() == 6,
        0 <= from <= 6,
    ensures
        match solid_from(around, preferred, from) {
            Some(face) => !airy(around[rank(face)]),
            None => forall|i: int|
                from <= i < 6 && faces()[i] != preferred ==> airy(#[trigger] around[i]),
        },
    decreases 6 - from,
{
    if from < 6 {
        first_solid(around, preferred, from + 1);
        assert(rank(faces()[from]) == from);
    }
}

/// What place-block says of an empty hand.
pub fn empty_hand() -> (r: Failure)
    ensures
        r@ == FailureView::refusal("EMPTY_HAND"@, "Nothing is in hand to place"@),
{
    Failure::refused("EMPTY_HAND", "Nothing is in hand to place".to_owned())
}

/// What place-block answers.
pub fn placed(at: BlockPos, face: Face) -> (r: Answer)
    ensures
        r@ == AnswerView::plain(
            "Placed a block at "@ + written_of(at) + " against its "@ + name_of(face) + " face."@,
        ),
{
    Answer::text(
        cat5("Placed a block at ", written(at).as_str(), " against its ", face_name(face), " face."),
    )
}

/// A block being dug. Breaking is not one packet: the client says it has started and keeps hitting
/// until the server agrees the block is gone -- at once in creative, as long as the tool in hand takes
/// in survival. Both look the same from here: keep going until the block is not there.
pub struct Dig {
    pub at: BlockPos,
    /// The block's name, without its namespace.
    pub block: String,
    pub ticks: u32,
}

/// What comes of a look at a block being dug.
pub enum Digging {
    Dug(Answer),
    Stuck(Failure),
    /// Look at it and go on, asking for it anew where that is due.
    Tick { start: bool },
}

impl Dig {
    pub open spec fn valid(&self) -> bool {
        self.ticks <= DIG_PATIENCE_TICKS + 1
    }

    /// Begin to dig. Nothing to dig is a state, not a refusal: asking twice should not fail the second
    /// time.
    pub fn begin(at: BlockPos, kind: &str) -> (r: Result<Dig, Answer>)
        ensures
            match r {
                Ok(dig) => !airy(kind@) && dig.at == at && dig.block@ == bare(kind@) && dig.ticks
                    == 0 && dig.valid(),
                Err(answer) => airy(kind@) && answer@ == AnswerView::plain(
                    "Nothing to dig at "@ + written_of(at) + "."@,
                ),
            },
    {
        if is_air(kind) {
            return Err(Answer::text(cat3("Nothing to dig at ", written(at).as_str(), ".")));
        }
        Ok(Dig { at, block: plain(kind).to_owned(), ticks: 0 })
    }

    /// A look at the block: the kind it is now, and whether the client is mining.
    pub fn look(&mut self, kind: &str, mining: bool) -> (r: Digging)
        requires
            old(self).valid(),
        ensures
            final(self).valid(),
            final(self).at == old(self).at,
            final(self).block == old(self).block,
            if airy(kind@) {
                r matches Digging::Dug(answer) && answer@ == AnswerView::plain(
                    "Dug "@ + old(self).block@ + " at "@ + written_of(old(self).at) + "."@,
                ) && final(self).ticks == old(self).ticks
            } else if old(self).ticks > DIG_PATIENCE_TICKS {
                r matches Digging::Stuck(failure) && failure@ == FailureView::refusal(
                    "DIG_STUCK"@,
                    old(self).block@ + " at "@ + written_of(old(self).at) + " did not break in "@
                        + dec(30) + "s. Nothing in hand may be able to break it."@,
                ) && final(self).ticks == old(self).ticks
            } else {
                &&& r matches Digging::Tick { start }
                &&& start == (!mining && old(self).ticks as int % 5 == 0)
                &&& final(self).ticks == old(self).ticks + 1
            },
    {
        if is_air(kind) {
            return Digging::Dug(
                Answer::text(
                    cat5("Dug ", self.block.as_str(), " at ", written(self.at).as_str(), "."),
                ),
            );
        }
        if self.ticks > DIG_PATIENCE_TICKS {
            return Digging::Stuck(
                Failure::refused(
                    "DIG_STUCK",
                    cat6(
                        self.block.as_str(),
                        " at ",
                        written(self.at).as_str(),
                        " did not break in ",
                        decimal((DIG_PATIENCE_TICKS / 20) as u64).as_str(),
                        "s. Nothing in hand may be able to break it.",
                    ),
                ),
            );
        }
        let start: bool = !mining && self.ticks % DIG_RETRY_TICKS == 0;
        self.ticks = self.ticks + 1;
        Digging::Tick { start }
    }
}

/// What activate-block says of a place outside the loaded chunks.
pub fn not_loaded(at: BlockPos) -> (r: Failure)
    ensures
        r@ == FailureView::refusal(
            "NOT_LOADED"@,
            written_of(at)
                + " is outside the loaded chunks, so there is no block to activate"@,
        ),
{
    Failure::refused(
        "NOT_LOADED",
        cat2(
            written(at).as_str(),
            " is outside the loaded chunks, so there is no block to activate",
        ),
    )
}

/// What activate-block answers. What opens a window is this followed by wait-for-window. Nothing is
/// waited for here, because a lever has no window and waiting for one would make every button cost a
/// timeout.
pub fn activated(at: BlockPos, kind: &str) -> (r: Answer)
    ensures
        r@ == AnswerView::plain(
            "Right-clicked "@ + bare(kind@) + " at "@ + written_of(at) + "."@,
        ),
{
    Answer::text(cat5("Right-clicked ", plain(kind), " at ", written(at).as_str(), "."))
}

/// The stack in a hand, in words.
pub open spec fn in_hand(stack: Option<Stack>) -> Seq<char> {
    match stack {
        None => "an empty hand"@,
        Some(stack) => (match stack.custom_name {
            Some(name) => name@.words(),
            None => stack.name@,
        }) + " x"@ + dec(stack.count as int),
    }
}

/// The stack in a hand, in the words the other kind of bot uses: what a server called it, else what
/// it is.
pub fn describe(stack: &Option<Stack>) -> (r: String)
    ensures
        r@ == in_hand(*stack),
{
    match stack {
        None => "an empty hand".to_owned(),
        Some(stack) => {
            let name: String = match &stack.custom_name {
                Some(name) => name.words(),
                None => stack.name.clone(),
            };
            cat3(name.as_str(), " x", signed(stack.count as i64).as_str())
        },
    }
}

pub open spec fn hand_name(offhand: bool) -> Seq<char> {
    if offhand {
        "off-hand"@
    } else {
        "main hand"@
    }
}

/// What use-held-item answers. A plain use leaves the item in use on purpose -- that is how food is
/// eaten. A hold is what a bow needs: the draw builds while the item stays in use, and releasing is
/// what fires it.
pub fn used(held: &str, offhand: bool, hold: u64) -> (r: Answer)
    ensures
        r@ == AnswerView::plain(
            if hold == 0 {
                "Used "@ + held@ + " in the "@ + hand_name(offhand) + "."@
            } else {
                "Used "@ + held@ + " in the "@ + hand_name(offhand) + ", held for "@ + dec(
                    hold as int,
                ) + "ms and released."@
            },
        ),
{
    let place: &str = if offhand {
        "off-hand"
    } else {
        "main hand"
    };
    if hold == 0 {
        return Answer::text(cat5("Used ", held, " in the ", place, "."));
    }
    Answer::text(
        cat7(
            "Used ",
            held,
            " in the ",
            place,
            ", held for ",
            decimal(hold).as_str(),
            "ms and released.",
        ),
    )
}

/// Which hand use-held-item uses, and for how many milliseconds.
pub fn use_args(args: &Json) -> (r: (bool, u64))
    ensures
        r.0 == (args@.bool_at("offhand"@) == Some(true)),
        r.1 == nat_or_of(args@, "holdMs"@, 0),
{
    let offhand: bool = match args.bool_at("offhand") {
        Some(offhand) => offhand,
        None => false,
    };
    (offhand, nat_or(args, "holdMs", 0))
}

/// Each face goes by its name, and leads one block that way: up and down, north towards less z, south
/// towards more, west towards less x, east towards more.
pub proof fn each_face_leads_its_own_way(at: BlockPos)
    requires
        inside(at),
    ensures
        beside(at, Face::Up).y == at.y + 1 && beside(at, Face::Up).x == at.x && beside(at, Face::Up).z
            == at.z,
        beside(at, Face::Down).y == at.y - 1 && beside(at, Face::Down).x == at.x,
        beside(at, Face::North).z == at.z - 1 && beside(at, Face::North).y == at.y,
        beside(at, Face::South).z == at.z + 1 && beside(at, Face::South).y == at.y,
        beside(at, Face::West).x == at.x - 1 && beside(at, Face::West).z == at.z,
        beside(at, Face::East).x == at.x + 1 && beside(at, Face::East).z == at.z,
        name_of(Face::Up) == "up"@ && name_of(Face::Down) == "down"@,
        name_of(Face::North) == "north"@ && name_of(Face::South) == "south"@,
        name_of(Face::West) == "west"@ && name_of(Face::East) == "east"@,
        facing(Face::Up) == Face::Down && facing(Face::North) == Face::South && facing(Face::East)
            == Face::West,
{
}

/// A face that is named is the one that goes by that name.
pub proof fn a_face_is_found_by_its_name(name: Seq<char>, from: int)
    requires
        0 <= from,
    ensures
        face_called(name, from) matches Some(face) ==> name_of(face) == name,
        from == 0 && face_called(name, from) is None ==> name != "up"@ && name != "down"@ && name
            != "north"@ && name != "south"@ && name != "east"@ && name != "west"@,
    decreases 6 - from,
{
    reveal_with_fuel(face_called, 7);
    if from < 6 {
        a_face_is_found_by_its_name(name, from + 1);
    }
    assert(faces()[0] == Face::Down && faces()[1] == Face::Up && faces()[2] == Face::North && faces()[3]
        == Face::South && faces()[4] == Face::East && faces()[5] == Face::West);
}

/// A block is placed against the face that was asked for where something is there, and against
/// another that has something otherwise.
pub proof fn the_face_asked_for_comes_first(around: Seq<Seq<char>>, preferred: Face)
    requires
        around.len() == 6,
    ensures
        !airy(around[rank(preferred)]) ==> chosen(around, preferred) == Some(preferred),
        airy(around[rank(preferred)]) ==> (chosen(around, preferred) matches Some(face) ==> face
            != preferred && !airy(around[rank(face)])),
{
    solid_is_solid(around, preferred, 0);
}

proof fn solid_is_solid(around: Seq<Seq<char>>, preferred: Face, from: int)
    requires
        0 <= from,
    ensures
        solid_from(around, preferred, from) matches Some(face) ==> face != preferred && !airy(
            around[rank(face)],
        ),
    decreases 6 - from,
{
    if from < 6 {
        solid_is_solid(around, preferred, from + 1);
        assert(faces()[0] == Face::Down && faces()[1] == Face::Up && faces()[2] == Face::North
            && faces()[3] == Face::South && faces()[4] == Face::East && faces()[5] == Face::West);
    }
}

/// The bot is in the way of a block at its feet and of one at its head.
pub proof fn the_bot_is_two_blocks_tall(at: BlockPos, feet: BlockPos)
    ensures
        in_the_bot(at, feet) <==> at.x == feet.x && at.z == feet.z && 0 <= at.y - feet.y <= 1,
        in_hand(None) == "an empty hand"@,
        hand_name(true) == "off-hand"@,
        hand_name(false) == "main hand"@,
        DIG_PATIENCE_TICKS == 600,
        DIG_RETRY_TICKS == 5,
{
}

/// What is in a hand is told by the name a server gave it, or by what it is, with how many there are.
pub proof fn what_is_in_a_hand_is_counted(stack: Stack)
    ensures
        stack.custom_name matches Some(name) ==> in_hand(Some(stack)) == name@.words() + " x"@ + dec(
            stack.count as int,
        ),
        stack.custom_name is None ==> in_hand(Some(stack)) == stack.name@ + " x"@ + dec(
            stack.count as int,
        ),
{
}

} // verus!
