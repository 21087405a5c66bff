//! What WorldEdit has selected, asked of the server rather than read out of chat.
use vstd::prelude::*;

use crate::calls::{Answer, AnswerView};
use crate::json::{a_field_reads_back, an_empty_object_has_nothing, docs, Doc, Json};
use crate::place::BlockPos;
use crate::worldedit::Selection;

verus! {

/// The wait for a description that was asked for.
///
/// One description is several messages -- the shape, then a corner each -- and the server sends them
/// together, so the tick that carries the first carries the rest. The corners are the proof of that:
/// having one is having a whole description, and the answer goes back on the tick it arrives.
///
/// A description with no corner in it is the ambiguous one, since it reads the same whether nothing
/// is selected or the corners are a tick behind. That one waits a further tick, and the wait costs
/// nothing where it happens -- no box is put down over an empty selection.
#[derive(Clone, Copy, Debug, PartialEq, Eq, Structural)]
pub struct Asked {
    /// How many messages there had been when the question was asked.
    pub before: u32,
    pub waited_again: bool,
}

impl Asked {
    /// Whether the answer is in, with so many messages and corners.
    pub open spec fn answered(self, described: u32, corners: int) -> bool {
        described > self.before && (corners > 0 || self.waited_again)
    }

    /// The wait after a tick with so many messages and corners.
    pub open spec fn ticked(self, described: u32, corners: int) -> Asked {
        Asked {
            waited_again: self.waited_again || described > self.before && corners == 0,
            ..self
        }
    }

    pub fn new(before: u32) -> (r: Asked)
        ensures
            r == (Asked { before, waited_again: false }),
    {
        Asked { before, waited_again: false }
    }

    /// A tick: whether the answer is in, with how many messages and corners there are now.
    pub fn tick(&mut self, described: u32, corners: usize) -> (done: bool)
        ensures
            done == old(self).answered(described, corners as int),
            *final(self) == old(self).ticked(described, corners as int),
    {
        if described > self.before {
            if corners > 0 || self.waited_again {
                self.waited_again = self.waited_again || corners == 0;
                return true;
            }
            self.waited_again = true;
        }
        false
    }
}

/// A description is never waited on for more than one further tick, and nothing that came before the
/// question answers it.
pub proof fn one_further_tick_is_enough(
    asked: Asked,
    described: u32,
    corners: int,
    later: u32,
    corners_later: int,
)
    requires
        0 <= corners,
        0 <= corners_later,
        described <= later,
    ensures
        described > asked.before ==> asked.answered(described, corners) || asked.ticked(
            described,
            corners,
        ).answered(later, corners_later),
        described <= asked.before ==> !asked.answered(described, corners),
{
}

pub open spec fn corner_docs(corners: Seq<(usize, BlockPos)>) -> Seq<Doc> {
    Seq::new(
        corners.len(),
        |i: int|
            Doc::object().with("index"@, Doc::number(corners[i].0 as int)).with(
                "x"@,
                Doc::number(corners[i].1.x as int),
            ).with("y"@, Doc::number(corners[i].1.y as int)).with(
                "z"@,
                Doc::number(corners[i].1.z as int),
            ),
    )
}

/// What read-selection answers: the selection, where the server described it. A server that never
/// answers is a server without WorldEdit, or one whose WorldEdit does not send what is asked for, and
/// nothing described is nothing known.
pub fn read_selection(selection: Option<&Selection>) -> (r: Answer)
    ensures
        r@ == AnswerView::full(
            "read-selection"@,
            match selection {
                Some(selection) => Doc::object().with("supported"@, Doc::Bool(true)).with(
                    "shape"@,
                    match selection@.shape {
                        Some(shape) => Doc::Text(shape),
                        None => Doc::Null,
                    },
                ).with("points"@, Doc::list(corner_docs(selection@.named()))).with(
                    "volume"@,
                    match selection@.volume {
                        Some(volume) => Doc::number(volume as int),
                        None => Doc::Null,
                    },
                ),
                None => Doc::object().with("supported"@, Doc::Bool(false)).with(
                    "shape"@,
                    Doc::Null,
                ).with("points"@, Doc::list(Seq::empty())).with("volume"@, Doc::Null),
            },
        ),
{
    let mut points: Vec<Json> = Vec::new();
    match selection {
        None => {
            proof {
                assert(docs(points@) =~= Seq::empty());
            }
            Answer::data(
                "read-selection".to_owned(),
                Json::object().with("supported", Json::Bool(false)).with("shape", Json::Null).with(
                    "points",
                    Json::list(points),
                ).with("volume", Json::Null),
            )
        },
        Some(selection) => {
            let corners = selection.corners();
            let mut i: usize = 0;
            while i < corners.len()
                invariant
                    i <= corners@.len(),
                    corners@ == selection@.named(),
                    points@.len() == i,
                    forall|k: int|
                        0 <= k < i ==> (#[trigger] points@[k])@ == corner_docs(corners@)[k],
                decreases corners@.len() - i,
            {
                let (index, at) = corners[i];
                points.push(
                    Json::object().with("index", Json::count(index as u64)).with(
                        "x",
                        Json::number(at.x as i64),
                    ).with("y", Json::number(at.y as i64)).with("z", Json::number(at.z as i64)),
                );
                i += 1;
            }
            proof {
                assert(docs(points@) =~= corner_docs(selection@.named()));
            }
            let shape = match selection.shape() {
                Some(shape) => Json::text(shape),
                None => Json::Null,
            };
            let volume = match selection.volume() {
                Some(volume) => Json::number(volume),
                None => Json::Null,
            };
            Answer::data(
                "read-selection".to_owned(),
                Json::object().with("supported", Json::Bool(true)).with("shape", shape).with(
                    "points",
                    Json::list(points),
                ).with("volume", volume),
            )
        },
    }
}

/// A corner is told with its number and its place.
pub proof fn a_corner_is_told_with_its_number(corners: Seq<(usize, BlockPos)>, i: int)
    requires
        0 <= i < corners.len(),
    ensures
        corner_docs(corners).len() == corners.len(),
        corner_docs(corners)[i].at("index"@) == Some(Doc::number(corners[i].0 as int)),
        corner_docs(corners)[i].at("x"@) == Some(Doc::number(corners[i].1.x as int)),
        corner_docs(corners)[i].at("y"@) == Some(Doc::number(corners[i].1.y as int)),
        corner_docs(corners)[i].at("z"@) == Some(Doc::number(corners[i].1.z as int)),
{
    broadcast use {a_field_reads_back, an_empty_object_has_nothing};
    reveal_strlit("index");
    reveal_strlit("x");
    reveal_strlit("y");
    reveal_strlit("z");
    assert("index"@.len() == 5);
    assert("x"@.len() == 1);
    assert("y"@.len() == 1);
    assert("z"@.len() == 1);
    assert("x"@[0] != "y"@[0]);
    assert("x"@[0] != "z"@[0]);
    assert("y"@[0] != "z"@[0]);
}

/// A selection is answered once something was said of it since it was asked for, and with no corner
/// named only once there was another look.
pub proof fn an_answer_is_newer_than_its_question(asked: Asked, described: u32, corners: int)
    ensures
        described <= asked.before ==> !asked.answered(described, corners),
        described > asked.before && corners > 0 ==> asked.answered(described, corners),
        described > asked.before && corners == 0 ==> (asked.answered(described, corners)
            <==> asked.waited_again),
        described > asked.before && corners == 0 ==> asked.ticked(described, corners).waited_again,
        asked.ticked(described, corners).before == asked.before,
{
}

} // verus!
