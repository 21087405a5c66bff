//! Arguments of a call, and how places and names are written in its answer.
use vstd::prelude::*;

use crate::calls::{Failure, FailureView};
use crate::json::{a_field_reads_back, an_empty_object_has_nothing, Doc, Fraction, Json, Number};
use crate::place::BlockPos;
use crate::words::{bare, cat2, cat7, dec, signed, starts_with};

verus! {

/// An argument, where it is there at all.
pub open spec fn given(args: Doc, name: Seq<char>) -> Doc {
    match args.at(name) {
        Some(value) => value,
        None => Doc::Null,
    }
}

/// What is said of an argument that is not what it should be.
pub open spec fn expected(what: Seq<char>, name: Seq<char>) -> FailureView {
    FailureView::misuse(what + name)
}

fn unexpected(what: &str, name: &str) -> (r: Failure)
    ensures
        r@ == expected(what@, name@),
{
    Failure::bad_args(cat2(what, name))
}

/// A number of an argument, where it is one.
pub open spec fn number_of(args: Doc, name: Seq<char>) -> Option<Number> {
    match given(args, name) {
        Doc::Number(number) => Some(number),
        _ => None,
    }
}

pub(crate) fn number(args: &Json, name: &str) -> (r: Option<Number>)
    ensures
        r == number_of(args@, name@),
{
    match args.get(name) {
        Some(Json::Number(number)) => Some(*number),
        _ => None,
    }
}

/// A place from three axes, the first that is missing named.
pub open spec fn place_of(
    x: Option<int>,
    y: Option<int>,
    z: Option<int>,
) -> Result<BlockPos, FailureView> {
    match (x, y, z) {
        (None, _, _) => Err(expected("expected a number for "@, "x"@)),
        (_, None, _) => Err(expected("expected a number for "@, "y"@)),
        (_, _, None) => Err(expected("expected a number for "@, "z"@)),
        (Some(x), Some(y), Some(z)) => Ok(BlockPos { x: x as i32, y: y as i32, z: z as i32 }),
    }
}

pub open spec fn floor_of(args: Doc, name: Seq<char>) -> Option<int> {
    match number_of(args, name) {
        Some(number) => Some(number.floor_of()),
        None => None,
    }
}

pub open spec fn cut_of(args: Doc, name: Seq<char>) -> Option<int> {
    match number_of(args, name) {
        Some(number) => Some(number.cut_of()),
        None => None,
    }
}

/// The place in a result, or the failure as it reads.
pub open spec fn placed(r: Result<BlockPos, Failure>) -> Result<BlockPos, FailureView> {
    match r {
        Ok(at) => Ok(at),
        Err(failure) => Err(failure@),
    }
}

/// A block position from x, y and z. The server has already floored them, but a number is a number
/// on the wire, so a whole one arrives as 3.0 as often as 3.
pub fn position(args: &Json) -> (r: Result<BlockPos, Failure>)
    ensures
        placed(r) == place_of(
            floor_of(args@, "x"@),
            floor_of(args@, "y"@),
            floor_of(args@, "z"@),
        ),
{
    let x: i32 = match number(args, "x") {
        Some(x) => x.floor(),
        None => return Err(unexpected("expected a number for ", "x")),
    };
    let y: i32 = match number(args, "y") {
        Some(y) => y.floor(),
        None => return Err(unexpected("expected a number for ", "y")),
    };
    let z: i32 = match number(args, "z") {
        Some(z) => z.floor(),
        None => return Err(unexpected("expected a number for ", "z")),
    };
    Ok(BlockPos { x, y, z })
}

/// A corner of a box, from the x, y and z of the object an argument is. A fraction is cut off
/// towards zero, as the other kind of bot cuts it.
pub fn corner(args: &Json, name: &str) -> (r: Result<BlockPos, Failure>)
    ensures
        placed(r) == ({
            let at = given(args@, name@);
            place_of(cut_of(at, "x"@), cut_of(at, "y"@), cut_of(at, "z"@))
        }),
{
    let none = Json::Null;
    let at = match args.get(name) {
        Some(at) => at,
        None => &none,
    };
    let x: i32 = match number(at, "x") {
        Some(x) => x.cut(),
        None => return Err(unexpected("expected a number for ", "x")),
    };
    let y: i32 = match number(at, "y") {
        Some(y) => y.cut(),
        None => return Err(unexpected("expected a number for ", "y")),
    };
    let z: i32 = match number(at, "z") {
        Some(z) => z.cut(),
        None => return Err(unexpected("expected a number for ", "z")),
    };
    Ok(BlockPos { x, y, z })
}

/// An argument that has to be a text.
pub open spec fn text_of(args: Doc, name: Seq<char>) -> Result<Seq<char>, FailureView> {
    match given(args, name).text() {
        Some(text) => Ok(text),
        None => Err(expected("expected a string for "@, name)),
    }
}

/// The text in a result, or the failure as it reads.
pub open spec fn worded(r: Result<&str, Failure>) -> Result<Seq<char>, FailureView> {
    match r {
        Ok(text) => Ok(text@),
        Err(failure) => Err(failure@),
    }
}

pub fn text<'a>(args: &'a Json, name: &str) -> (r: Result<&'a str, Failure>)
    ensures
        worded(r) == text_of(args@, name@),
{
    match args.text_at(name) {
        Some(text) => Ok(text),
        None => Err(unexpected("expected a string for ", name)),
    }
}

/// An argument that counts something, or its fallback where it is no natural number.
pub open spec fn nat_or_of(args: Doc, name: Seq<char>, fallback: u64) -> u64 {
    match args.nat_at(name) {
        Some(n) => n,
        None => fallback,
    }
}

pub(crate) fn nat_or(args: &Json, name: &str, fallback: u64) -> (r: u64)
    ensures
        r == nat_or_of(args@, name@, fallback),
{
    match args.nat_at(name) {
        Some(n) => n,
        None => fallback,
    }
}

/// A registry name without its namespace, which is how the game's own lookups take it.
pub fn plain(name: &str) -> (r: &str)
    ensures
        r@ == bare(name@),
{
    if starts_with(name, "minecraft:") {
        let end: usize = vstd::string::StrSliceExecFns::unicode_len(name);
        proof {
            reveal_strlit("minecraft:");
            assert(name@.subrange(10, name@.len() as int) =~= name@.skip(10));
        }
        vstd::string::StrSliceExecFns::substring_char(name, 10, end)
    } else {
        name
    }
}

pub open spec fn point_of(position: BlockPos) -> Doc {
    Doc::object().with("x"@, Doc::number(position.x as int)).with(
        "y"@,
        Doc::number(position.y as int),
    ).with("z"@, Doc::number(position.z as int))
}

pub fn point(position: BlockPos) -> (r: Json)
    ensures
        r@ == point_of(position),
{
    Json::object().with("x", Json::number(position.x as i64)).with(
        "y",
        Json::number(position.y as i64),
    ).with("z", Json::number(position.z as i64))
}

pub open spec fn written_of(position: BlockPos) -> Seq<char> {
    "("@ + dec(position.x as int) + ", "@ + dec(position.y as int) + ", "@ + dec(
        position.z as int,
    ) + ")"@
}

/// How a coordinate reads in a sentence, in the shape the other kind of bot prints it.
pub fn written(position: BlockPos) -> (r: String)
    ensures
        r@ == written_of(position),
{
    cat7(
        "(",
        signed(position.x as i64).as_str(),
        ", ",
        signed(position.y as i64).as_str(),
        ", ",
        signed(position.z as i64).as_str(),
        ")",
    )
}

/// The integer a number is, where it is one, as far as 64 bits go.
pub open spec fn whole_of(number: Number) -> Option<i64> {
    match number {
        Number::Whole(n) => Some(n),
        Number::Large(_) => Some(i64::MAX),
        Number::Fraction(f) => f.whole,
    }
}

/// An argument that is an integer, or its fallback.
pub open spec fn integer_of(args: Doc, name: Seq<char>, fallback: i64) -> Result<i64, FailureView> {
    match given(args, name) {
        Doc::Null => Ok(fallback),
        Doc::Number(number) => match whole_of(number) {
            Some(n) => Ok(n),
            None => Err(expected("expected an integer for "@, name)),
        },
        _ => Err(expected("expected an integer for "@, name)),
    }
}

pub open spec fn integral(r: Result<i64, Failure>) -> Result<i64, FailureView> {
    match r {
        Ok(n) => Ok(n),
        Err(failure) => Err(failure@),
    }
}

/// An integer, or the fallback when the argument is absent or null. A whole number arrives as 3.0
/// as often as 3.
pub fn integer(args: &Json, name: &str, fallback: i64) -> (r: Result<i64, Failure>)
    ensures
        integral(r) == integer_of(args@, name@, fallback),
{
    let whole: Option<i64> = match args.get(name) {
        None => Some(fallback),
        Some(Json::Null) => Some(fallback),
        Some(Json::Number(number)) => match number {
            Number::Whole(n) => Some(*n),
            Number::Large(_) => Some(i64::MAX),
            Number::Fraction(f) => f.whole,
        },
        Some(_) => None,
    };
    match whole {
        Some(n) => Ok(n),
        None => Err(unexpected("expected an integer for ", name)),
    }
}

/// An argument that is a boolean, or its fallback.
pub open spec fn boolean_of(args: Doc, name: Seq<char>, fallback: bool) -> Result<bool, FailureView> {
    match given(args, name) {
        Doc::Null => Ok(fallback),
        Doc::Bool(b) => Ok(b),
        _ => Err(expected("expected a boolean for "@, name)),
    }
}

pub open spec fn decided(r: Result<bool, Failure>) -> Result<bool, FailureView> {
    match r {
        Ok(b) => Ok(b),
        Err(failure) => Err(failure@),
    }
}

pub fn boolean(args: &Json, name: &str, fallback: bool) -> (r: Result<bool, Failure>)
    ensures
        decided(r) == boolean_of(args@, name@, fallback),
{
    match args.get(name) {
        None => Ok(fallback),
        Some(Json::Null) => Ok(fallback),
        Some(Json::Bool(b)) => Ok(*b),
        Some(_) => Err(unexpected("expected a boolean for ", name)),
    }
}

/// An argument that is a text, or its fallback.
pub open spec fn text_or_of(args: Doc, name: Seq<char>, fallback: Seq<char>) -> Result<
    Seq<char>,
    FailureView,
> {
    match given(args, name) {
        Doc::Null => Ok(fallback),
        _ => text_of(args, name),
    }
}

pub fn text_or<'a>(args: &'a Json, name: &str, fallback: &'a str) -> (r: Result<&'a str, Failure>)
    ensures
        worded(r) == text_or_of(args@, name@, fallback@),
{
    match args.get(name) {
        None => Ok(fallback),
        Some(Json::Null) => Ok(fallback),
        Some(_) => text(args, name),
    }
}

/// A point is told by its three axes, each under its own name.
pub proof fn a_point_is_told_by_its_axes(position: BlockPos)
    ensures
        point_of(position).at("x"@) == Some(Doc::number(position.x as int)),
        point_of(position).at("y"@) == Some(Doc::number(position.y as int)),
        point_of(position).at("z"@) == Some(Doc::number(position.z as int)),
        written_of(position) == "("@ + dec(position.x as int) + ", "@ + dec(position.y as int)
            + ", "@ + dec(position.z as int) + ")"@,
{
    broadcast use {a_field_reads_back, an_empty_object_has_nothing};
    reveal_strlit("x");
    reveal_strlit("y");
    reveal_strlit("z");
    assert("x"@[0] != "y"@[0]);
    assert("x"@[0] != "z"@[0]);
    assert("y"@[0] != "z"@[0]);
}

/// A place is read axis by axis: the block each number lies in, or the first axis that is no number.
pub proof fn a_place_is_read_axis_by_axis(x: Option<int>, y: Option<int>, z: Option<int>)
    ensures
        x is Some && y is Some && z is Some && i32::MIN <= x->0 <= i32::MAX && i32::MIN <= y->0
            <= i32::MAX && i32::MIN <= z->0 <= i32::MAX ==> (place_of(x, y, z) matches Ok(at) && at.x
            == x->0 && at.y == y->0 && at.z == z->0),
        x is None ==> (place_of(x, y, z) matches Err(failure) && failure.message
            == "expected a number for "@ + "x"@),
        x is Some && y is None ==> (place_of(x, y, z) matches Err(failure) && failure.message
            == "expected a number for "@ + "y"@),
        x is Some && y is Some && z is None ==> (place_of(x, y, z) matches Err(failure)
            && failure.message == "expected a number for "@ + "z"@),
{
}

/// An argument that is there is taken as it is, one left out or null is its fallback, and one of
/// another kind is refused.
pub proof fn an_argument_is_what_was_given(
    args: Doc,
    name: Seq<char>,
    n: i64,
    b: bool,
    text: Seq<char>,
    fallback: i64,
    otherwise: bool,
    words: Seq<char>,
)
    ensures
        args.at(name) == Some(Doc::Number(Number::Whole(n))) ==> integer_of(args, name, fallback)
            == Ok::<i64, FailureView>(n),
        args.at(name) is None || args.at(name) == Some(Doc::Null) ==> integer_of(args, name, fallback)
            == Ok::<i64, FailureView>(fallback) && boolean_of(args, name, otherwise) == Ok::<
            bool,
            FailureView,
        >(otherwise) && text_or_of(args, name, words) == Ok::<Seq<char>, FailureView>(words)
            && text_of(args, name) is Err,
        args.at(name) == Some(Doc::Bool(b)) ==> boolean_of(args, name, otherwise) == Ok::<
            bool,
            FailureView,
        >(b) && integer_of(args, name, fallback) is Err && text_of(args, name) is Err,
        args.at(name) == Some(Doc::Text(text)) ==> text_of(args, name) == Ok::<
            Seq<char>,
            FailureView,
        >(text) && text_or_of(args, name, words) == Ok::<Seq<char>, FailureView>(text) && integer_of(
            args,
            name,
            fallback,
        ) is Err && boolean_of(args, name, otherwise) is Err,
        integer_of(args, name, fallback) matches Err(failure) ==> failure.code == "BAD_ARGS"@
            && failure.message == "expected an integer for "@ + name,
        boolean_of(args, name, otherwise) matches Err(failure) ==> failure.code == "BAD_ARGS"@
            && failure.message == "expected a boolean for "@ + name,
        text_of(args, name) matches Err(failure) ==> failure.code == "BAD_ARGS"@ && failure.message
            == "expected a string for "@ + name,
{
}

/// A number is read as the integer it is; one that is too large reads as the greatest, and a fraction as
/// the integer it is where it is one.
pub proof fn a_whole_number_is_read_as_one(n: i64, large: u64, fraction: Fraction, args: Doc, name: Seq<char>, fallback: u64)
    ensures
        whole_of(Number::Whole(n)) == Some(n),
        whole_of(Number::Large(large)) == Some(i64::MAX),
        whole_of(Number::Fraction(fraction)) == fraction.whole,
        args.nat_at(name) matches Some(count) ==> nat_or_of(args, name, fallback) == count,
        args.nat_at(name) is None ==> nat_or_of(args, name, fallback) == fallback,
        args.at(name) == Some(Doc::Number(Number::Fraction(fraction))) ==> floor_of(args, name) == Some(
            fraction.floor as int,
        ) && cut_of(args, name) == Some(fraction.cut as int),
        args.at(name) is None ==> floor_of(args, name) is None && cut_of(args, name) is None,
{
}

/// A position is written by its three coordinates, in their order.
pub proof fn a_position_is_written_in_order(position: BlockPos)
    ensures
        written_of(position) == "("@ + dec(position.x as int) + ", "@ + dec(position.y as int) + ", "@
            + dec(position.z as int) + ")"@,
{
}

} // verus!
