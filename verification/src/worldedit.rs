//! WorldEdit's selection, taken from the channel it draws one on.
//!
//! WorldEdit describes the selection to a client that can draw it over the `worldedit:cui` plugin
//! channel, which is what the WorldEditCUI mod exists to receive. The messages are pipe-separated
//! ASCII: `s|<shape>` names the shape and starts a fresh description, and
//! `p|<0 or 1>|<x>|<y>|<z>|<volume>` gives a corner. Reading them is how a bot learns what it has
//! selected without the server having to say it in chat, which is slow, translated, and off
//! altogether on a server that silences the plugin.
//!
//! Nothing arrives unasked. WorldEdit sends to a session it believes has a CUI client, and a client
//! says so by sending `v|<protocol version>` back on the same channel. It answers a repeated
//! announcement by describing the selection again, which is what turns the handshake into a
//! question: what comes back is the selection as the server holds it now.
use vstd::prelude::*;

use crate::place::BlockPos;
use crate::words::{
    integer_value, parse_i64, parse_u64, same, split, split_by, texts, unsigned_value,
};

verus! {

/// The channel both WorldEdit and FastAsyncWorldEdit register, incoming and outgoing.
pub const NAMESPACE: &'static str = "worldedit";

pub const CHANNEL: &'static str = "cui";

/// Where a client lists the channels it speaks, which is how a vanilla one asks to be sent them.
pub const REGISTER: &'static str = "minecraft:register";

pub fn is_cui(namespace: &str, path: &str) -> (r: bool)
    ensures
        r == (namespace@ == NAMESPACE@ && path@ == CHANNEL@),
{
    same(namespace, NAMESPACE) && same(path, CHANNEL)
}

/// The channel and the message that say this client draws selections, and let WorldEdit describe
/// the one it holds. What the announcement claims to speak chooses between the current description
/// and the legacy one, and FastAsyncWorldEdit refuses an announcement longer than four characters.
pub fn ask() -> (r: (&'static str, &'static str))
    ensures
        r.0@ == "worldedit:cui"@,
        r.1@ == "v|4"@,
{
    ("worldedit:cui", "v|4")
}

/// The registration a vanilla client sends first. It is what a proxy in the middle reads: one that
/// forwards only the channels a client asked for would otherwise drop every description.
pub fn registration() -> (r: (&'static str, &'static str))
    ensures
        r.0@ == REGISTER@,
        r.1@ == "worldedit:cui"@,
{
    (REGISTER, "worldedit:cui")
}

/// What WorldEdit has said about the selection, as a CUI client keeps it.
pub struct Selection {
    shape: Option<String>,
    first: Option<BlockPos>,
    second: Option<BlockPos>,
    volume: Option<i64>,
    described: u32,
}

pub struct SelectionView {
    pub shape: Option<Seq<char>>,
    pub first: Option<BlockPos>,
    pub second: Option<BlockPos>,
    pub volume: Option<i64>,
    pub described: u32,
}

impl View for Selection {
    type V = SelectionView;

    closed spec fn view(&self) -> SelectionView {
        SelectionView {
            shape: match self.shape {
                Some(shape) => Some(shape@),
                None => None,
            },
            first: self.first,
            second: self.second,
            volume: self.volume,
            described: self.described,
        }
    }
}

/// A number of a corner, where it is one of the two.
pub open spec fn corner_number(field: Seq<char>) -> Option<int> {
    match unsigned_value(field) {
        Some(n) => if n < 2 {
            Some(n)
        } else {
            None
        },
        None => None,
    }
}

/// A coordinate, where it is one.
pub open spec fn coordinate(field: Seq<char>) -> Option<int> {
    match integer_value(field) {
        Some(n) => if i32::MIN <= n <= i32::MAX {
            Some(n)
        } else {
            None
        },
        None => None,
    }
}

/// A volume, where it is one.
pub open spec fn volume_of(field: Seq<char>) -> Option<i64> {
    match integer_value(field) {
        Some(n) => if i64::MIN <= n <= i64::MAX {
            Some(n as i64)
        } else {
            None
        },
        None => None,
    }
}

impl SelectionView {
    /// The selection once a message about it came in. A shape starts a description over; a corner
    /// lands in its own place; what cannot be read changes nothing.
    pub open spec fn accepting(self, message: Seq<char>) -> SelectionView {
        let fields = split_by(message, '|');
        if fields[0] == "s"@ {
            SelectionView {
                shape: if fields.len() > 1 {
                    Some(fields[1])
                } else {
                    None
                },
                first: None,
                second: None,
                volume: None,
                described: (self.described + 1) as u32,
            }
        } else if fields[0] == "p"@ && fields.len() >= 5 {
            match (
                corner_number(fields[1]),
                coordinate(fields[2]),
                coordinate(fields[3]),
                coordinate(fields[4]),
            ) {
                (Some(corner), Some(x), Some(y), Some(z)) => {
                    let at = BlockPos { x: x as i32, y: y as i32, z: z as i32 };
                    SelectionView {
                        first: if corner == 0 {
                            Some(at)
                        } else {
                            self.first
                        },
                        second: if corner == 1 {
                            Some(at)
                        } else {
                            self.second
                        },
                        volume: if fields.len() > 5 {
                            volume_of(fields[5])
                        } else {
                            None
                        },
                        described: (self.described + 1) as u32,
                        ..self
                    }
                },
                _ => self,
            }
        } else {
            self
        }
    }

    /// The corners the server has named, in its own numbering, with the ones it has not left out.
    pub open spec fn named(self) -> Seq<(usize, BlockPos)> {
        let first = match self.first {
            Some(at) => seq![(0usize, at)],
            None => Seq::empty(),
        };
        let second = match self.second {
            Some(at) => seq![(1usize, at)],
            None => Seq::empty(),
        };
        first + second
    }
}

fn parse_coordinate(field: &str) -> (r: Option<i32>)
    ensures
        match r {
            Some(n) => coordinate(field@) == Some(n as int),
            None => coordinate(field@) is None,
        },
{
    match parse_i64(field) {
        Some(n) => if n >= i32::MIN as i64 && n <= i32::MAX as i64 {
            Some(n as i32)
        } else {
            None
        },
        None => None,
    }
}

impl Selection {
    pub fn new() -> (r: Selection)
        ensures
            r@ == (SelectionView {
                shape: None,
                first: None,
                second: None,
                volume: None,
                described: 0,
            }),
    {
        Selection { shape: None, first: None, second: None, volume: None, described: 0 }
    }

    /// How many messages about the selection the server has sent.
    ///
    /// A reader takes this before it asks and watches for it to move, which is the only sign that
    /// what it is about to read answers its own question rather than being whatever was left from
    /// the last one.
    pub fn described(&self) -> (r: u32)
        ensures
            r == self@.described,
    {
        self.described
    }

    pub fn shape(&self) -> (r: Option<&str>)
        ensures
            match r {
                Some(shape) => self@.shape == Some(shape@),
                None => self@.shape is None,
            },
    {
        match &self.shape {
            Some(shape) => Some(shape.as_str()),
            None => None,
        }
    }

    pub fn volume(&self) -> (r: Option<i64>)
        ensures
            r == self@.volume,
    {
        self.volume
    }

    /// The corners the server has named, in its own numbering, with the ones it has not left out.
    pub fn corners(&self) -> (r: Vec<(usize, BlockPos)>)
        ensures
            r@ == self@.named(),
    {
        let mut out: Vec<(usize, BlockPos)> = Vec::new();
        match self.first {
            Some(at) => {
                out.push((0, at));
            },
            None => {},
        }
        match self.second {
            Some(at) => {
                out.push((1, at));
            },
            None => {},
        }
        proof {
            assert(out@ =~= self@.named());
        }
        out
    }

    /// One message, applied the way a CUI client applies it.
    ///
    /// A shape starts a description over, so the corners from the one before it are dropped:
    /// without that, clearing a selection and reading it back would answer with the corners of the
    /// selection that is gone. A corner then lands in its own slot, since WorldEdit sends only the
    /// corner that changed when a single `//pos1` moves it.
    ///
    /// Everything else a CUI client draws -- the colours, the ellipsoid and cylinder descriptions,
    /// the multi-region events -- says nothing about where a cuboid's corners are, and a bot has no
    /// selection box to paint.
    pub fn accept(&mut self, message: &str)
        requires
            old(self)@.described < u32::MAX,
        ensures
            final(self)@ == old(self)@.accepting(message@),
    {
        let fields = split(message, '|');
        let ghost views = split_by(message@, '|');
        proof {
            assert(texts(fields@) == views);
            assert(views.len() == fields@.len());
            assert forall|i: int| 0 <= i < fields@.len() implies (#[trigger] fields@[i])@
                == views[i] by {
                assert(texts(fields@)[i] == fields@[i]@);
            }
        }
        if same(fields[0].as_str(), "s") {
            self.shape =
            if fields.len() > 1 {
                Some(fields[1].clone())
            } else {
                None
            };
            self.first = None;
            self.second = None;
            self.volume = None;
            self.described = self.described + 1;
            return;
        }
        if same(fields[0].as_str(), "p") && fields.len() >= 5 {
            let corner: u64 = match parse_u64(fields[1].as_str()) {
                Some(corner) => corner,
                None => {
                    return;
                },
            };
            let x: i32 = match parse_coordinate(fields[2].as_str()) {
                Some(x) => x,
                None => {
                    return;
                },
            };
            let y: i32 = match parse_coordinate(fields[3].as_str()) {
                Some(y) => y,
                None => {
                    return;
                },
            };
            let z: i32 = match parse_coordinate(fields[4].as_str()) {
                Some(z) => z,
                None => {
                    return;
                },
            };
            if corner >= 2 {
                return;
            }
            let at = BlockPos { x, y, z };
            if corner == 0 {
                self.first = Some(at);
            } else {
                self.second = Some(at);
            }
            self.volume =
            if fields.len() > 5 {
                parse_i64(fields[5].as_str())
            } else {
                None
            };
            self.described = self.described + 1;
        }
    }
}

/// A shape leaves no corner and no volume of the selection before it.
pub proof fn a_shape_starts_over(selection: SelectionView, message: Seq<char>)
    requires
        split_by(message, '|')[0] == "s"@,
    ensures
        selection.accepting(message).named() == Seq::<(usize, BlockPos)>::empty(),
        selection.accepting(message).volume is None,
{
    assert(selection.accepting(message).named() =~= Seq::<(usize, BlockPos)>::empty());
}

/// Every message that is read counts once, and one that is not read leaves the selection as it was.
pub proof fn a_message_counts_once_or_changes_nothing(selection: SelectionView, message: Seq<char>)
    requires
        selection.described < u32::MAX,
    ensures
        selection.accepting(message) == selection || selection.accepting(message).described
            == selection.described + 1,
{
}

/// A corner leaves the other where it was, and the shape too.
pub proof fn a_corner_moves_alone(selection: SelectionView, message: Seq<char>)
    requires
        split_by(message, '|')[0] == "p"@,
    ensures
        selection.accepting(message).shape == selection.shape,
        selection.accepting(message).first == selection.first || selection.accepting(message).second
            == selection.second,
{
    reveal_strlit("p");
    reveal_strlit("s");
    assert("p"@[0] != "s"@[0]);
}

/// A message that names a corner puts it there, the first under 0 and the second under 1, with the
/// volume it says; one that names a shape starts over with that shape.
pub proof fn a_message_says_a_corner_or_a_shape(selection: SelectionView, message: Seq<char>)
    requires
        selection.described < u32::MAX,
    ensures
        ({
            let fields = split_by(message, '|');
            let after = selection.accepting(message);
            let x = coordinate(fields[2]);
            let y = coordinate(fields[3]);
            let z = coordinate(fields[4]);
            &&& fields[0] == "s"@ && fields.len() > 1 ==> after.shape == Some(fields[1])
                && after.first is None && after.second is None && after.volume is None
                && after.described == selection.described + 1
            &&& fields[0] == "p"@ && fields.len() >= 5 && unsigned_value(fields[1]) == Some(0int)
                && x is Some && y is Some && z is Some ==> after.first == Some(
                BlockPos { x: x->0 as i32, y: y->0 as i32, z: z->0 as i32 },
            ) && after.second == selection.second && after.shape == selection.shape
                && after.described == selection.described + 1
            &&& fields[0] == "p"@ && fields.len() >= 5 && unsigned_value(fields[1]) == Some(1int)
                && x is Some && y is Some && z is Some ==> after.second == Some(
                BlockPos { x: x->0 as i32, y: y->0 as i32, z: z->0 as i32 },
            ) && after.first == selection.first
            &&& fields[0] == "p"@ && fields.len() > 5 && unsigned_value(fields[1]) == Some(0int)
                && x is Some && y is Some && z is Some ==> after.volume == volume_of(fields[5])
            &&& fields[0] == "p"@ && fields.len() < 5 ==> after == selection
        }),
{
    reveal_strlit("s");
    reveal_strlit("p");
    assert("s"@[0] != "p"@[0]);
}

/// A corner is numbered 0 or 1, and a coordinate is an integer of the game.
pub proof fn a_corner_is_one_of_two(field: Seq<char>, n: int)
    ensures
        unsigned_value(field) == Some(n) && 0 <= n < 2 ==> corner_number(field) == Some(n),
        unsigned_value(field) == Some(n) && n >= 2 ==> corner_number(field) is None,
        unsigned_value(field) is None ==> corner_number(field) is None,
        integer_value(field) == Some(n) && i32::MIN <= n <= i32::MAX ==> coordinate(field) == Some(n),
        integer_value(field) is None ==> coordinate(field) is None && volume_of(field) is None,
        integer_value(field) == Some(n) && i64::MIN <= n <= i64::MAX ==> volume_of(field) == Some(
            n as i64,
        ),
{
}

} // verus!
