//! Where the bot stands.
use vstd::prelude::*;

use crate::calls::{Answer, AnswerView};
use crate::json::{Doc, Json};
use crate::place::BlockPos;
use crate::tools::args::{point, point_of};
use crate::words::{cat6, dec, signed};

verus! {

/// What get-position answers: the block the player is in, floored. Which block an entity occupies is
/// game knowledge, and truncating a negative coordinate towards zero names the block next door.
pub fn standing(at: BlockPos) -> (r: Answer)
    ensures
        r@ == AnswerView::full(
            "standing at "@ + dec(at.x as int) + ", "@ + dec(at.y as int) + ", "@ + dec(
                at.z as int,
            ),
            Doc::object().with("position"@, point_of(at)),
        ),
{
    Answer::data(
        cat6(
            "standing at ",
            signed(at.x as i64).as_str(),
            ", ",
            signed(at.y as i64).as_str(),
            ", ",
            signed(at.z as i64).as_str(),
        ),
        Json::object().with("position", point(at)),
    )
}

} // verus!
