//! Typing into the screens that take text, and reading what a block entity shows.
use vstd::prelude::*;

use crate::calls::{said, Answer, AnswerView, Failure, FailureView, Outcome};
use crate::dialog::{
    input_views, inputs_of, screen_of, Held, HeldView, InputView, Kind, KindView, Open,
};
use crate::editors::{
    face_lines, fits, is_sign, sign_face, width_of, BlockEntities, BlockEntity, CommandEditor,
    SignEditor,
};
use crate::json::{a_field_reads_back, an_empty_object_has_nothing, docs, Doc, Json};
use crate::place::BlockPos;
use crate::tools::args::{plain, point, point_of};
use crate::tools::dialogs::{no_button, no_such_button, pick_by, picked};
use crate::words::{
    bare, cat2, cat3, cat4, cat6, cat7, contains, dec, decimal, join, joined, letters, lowercase,
    lowercase_of, occurs, quote, quoted, replace, replaced, same, split, split_by, texts, trim,
    trimmed, units, units_are_bounded, utf16_len,
};

verus! {

/// The longest command the editor's box takes.
pub const COMMAND_LENGTH: u64 = 32500;

pub const COMMAND_SCREEN: &'static str = "CommandBlockEditScreen";

/// What the client draws a book from the hand with. One on a lectern is its menu's screen.
pub const BOOK_SCREEN: &'static str = "BookViewScreen";

/// A field of a screen that text is typed into.
pub struct Field {
    pub key: String,
    pub label: Option<String>,
    pub index: usize,
    pub max_length: u64,
    pub multiline: bool,
    pub editable: bool,
}

pub struct FieldView {
    pub key: Seq<char>,
    pub label: Option<Seq<char>>,
    pub index: int,
    pub max_length: u64,
    pub multiline: bool,
    pub editable: bool,
}

impl View for Field {
    type V = FieldView;

    open spec fn view(&self) -> FieldView {
        FieldView {
            key: self.key@,
            label: match self.label {
                Some(label) => Some(label@),
                None => None,
            },
            index: self.index as int,
            max_length: self.max_length,
            multiline: self.multiline,
            editable: self.editable,
        }
    }
}

pub open spec fn field_views(fields: Seq<Field>) -> Seq<FieldView> {
    Seq::new(fields.len(), |i: int| fields[i]@)
}

impl FieldView {
    /// How a field reads in a sentence: by its label, or by its place.
    pub open spec fn described(self) -> Seq<char> {
        match self.label {
            Some(label) => quoted(label),
            None => "field "@ + dec(self.index),
        }
    }

    /// Whether a field is the one asked for: its label, ignoring case, or its number.
    pub open spec fn is_called(self, wanted: Seq<char>) -> bool {
        (self.label matches Some(label) && lowercase_of(label) == lowercase_of(wanted)) || dec(
            self.index,
        ) == wanted
    }

    /// Whether a field's label has what is asked for in it, ignoring case.
    pub open spec fn sounds_like(self, wanted: Seq<char>) -> bool {
        self.label matches Some(label) && occurs(lowercase_of(label), lowercase_of(wanted))
    }
}

impl Field {
    pub fn describe(&self) -> (r: String)
        ensures
            r@ == self@.described(),
    {
        match &self.label {
            Some(label) => quote(label.as_str()),
            None => cat2("field ", decimal(self.index as u64).as_str()),
        }
    }
}

pub open spec fn first_called(fields: Seq<FieldView>, wanted: Seq<char>, from: int) -> Option<int>
    decreases fields.len() - from,
{
    if from < 0 || from >= fields.len() {
        None
    } else if fields[from].is_called(wanted) {
        Some(from)
    } else {
        first_called(fields, wanted, from + 1)
    }
}

pub open spec fn first_alike(fields: Seq<FieldView>, wanted: Seq<char>, from: int) -> Option<int>
    decreases fields.len() - from,
{
    if from < 0 || from >= fields.len() {
        None
    } else if fields[from].sounds_like(wanted) {
        Some(from)
    } else {
        first_alike(fields, wanted, from + 1)
    }
}

pub open spec fn described_all(fields: Seq<FieldView>) -> Seq<Seq<char>> {
    Seq::new(fields.len(), |i: int| fields[i].described())
}

/// The field that is meant: the only one where none is asked for, else the one called that, else one
/// that sounds like it.
pub open spec fn chosen(fields: Seq<FieldView>, wanted: Option<Seq<char>>, place: Seq<char>) -> Result<
    int,
    FailureView,
> {
    match wanted {
        None => if fields.len() == 1 {
            Ok(0)
        } else {
            Err(
                FailureView::refusal(
                    "FIELD_NOT_NAMED"@,
                    place + " has "@ + dec(fields.len() as int)
                        + " text fields and none was asked for. They are "@ + joined(
                        described_all(fields),
                        ", "@,
                    ) + "."@,
                ),
            )
        },
        Some(wanted) => match first_called(fields, wanted, 0) {
            Some(i) => Ok(i),
            None => match first_alike(fields, wanted, 0) {
                Some(i) => Ok(i),
                None => Err(
                    FailureView::refusal(
                        "NO_SUCH_FIELD"@,
                        "no text field matching \""@ + wanted + "\" on "@ + place
                            + ". What it has: "@ + joined(described_all(fields), ", "@) + "."@,
                    ),
                ),
            },
        },
    }
}

fn describe_all(fields: &Vec<Field>) -> (r: String)
    ensures
        r@ == joined(described_all(field_views(fields@)), ", "@),
{
    let mut list: Vec<String> = Vec::new();
    let mut i: usize = 0;
    while i < fields.len()
        invariant
            i <= fields@.len(),
            list@.len() == i,
            forall|k: int| 0 <= k < i ==> (#[trigger] list@[k])@ == fields@[k]@.described(),
        decreases fields@.len() - i,
    {
        list.push(fields[i].describe());
        i += 1;
    }
    proof {
        assert(texts(list@) =~= described_all(field_views(fields@)));
    }
    join(&list, ", ")
}

pub fn choose_field(fields: &Vec<Field>, wanted: Option<&str>, place: &str) -> (r: Result<
    usize,
    Failure,
>)
    ensures
        ({
            let want = chosen(
                field_views(fields@),
                match wanted {
                    Some(wanted) => Some(wanted@),
                    None => None,
                },
                place@,
            );
            match r {
                Ok(i) => want == Ok::<int, FailureView>(i as int) && i < fields@.len(),
                Err(failure) => want == Err::<int, FailureView>(failure@),
            }
        }),
{
    let ghost all = field_views(fields@);
    let name: &str = match wanted {
        Some(name) => name,
        None => {
            if fields.len() == 1 {
                return Ok(0);
            }
            return Err(
                Failure::refused(
                    "FIELD_NOT_NAMED",
                    cat6(
                        place,
                        " has ",
                        decimal(fields.len() as u64).as_str(),
                        " text fields and none was asked for. They are ",
                        describe_all(fields).as_str(),
                        ".",
                    ),
                ),
            );
        },
    };
    let lowered = lowercase(name);
    let mut i: usize = 0;
    while i < fields.len()
        invariant
            i <= fields@.len(),
            all == field_views(fields@),
            wanted == Some(name),
            lowered@ == lowercase_of(name@),
            first_called(all, name@, 0) == first_called(all, name@, i as int),
        decreases fields@.len() - i,
    {
        proof {
            assert(all[i as int] == fields@[i as int]@);
        }
        let by_label: bool = match &fields[i].label {
            Some(label) => same(lowercase(label.as_str()).as_str(), lowered.as_str()),
            None => false,
        };
        if by_label || same(decimal(fields[i].index as u64).as_str(), name) {
            return Ok(i);
        }
        i += 1;
    }
    let mut j: usize = 0;
    while j < fields.len()
        invariant
            j <= fields@.len(),
            all == field_views(fields@),
            wanted == Some(name),
            lowered@ == lowercase_of(name@),
            first_called(all, name@, 0) is None,
            first_alike(all, name@, 0) == first_alike(all, name@, j as int),
        decreases fields@.len() - j,
    {
        proof {
            assert(all[j as int] == fields@[j as int]@);
        }
        let alike: bool = match &fields[j].label {
            Some(label) => contains(lowercase(label.as_str()).as_str(), lowered.as_str()),
            None => false,
        };
        if alike {
            return Ok(j);
        }
        j += 1;
    }
    Err(
        Failure::refused(
            "NO_SUCH_FIELD",
            cat7(
                "no text field matching \"",
                name,
                "\" on ",
                place,
                ". What it has: ",
                describe_all(fields).as_str(),
                ".",
            ),
        ),
    )
}

/// Whether the client lets a player type a character into chat and every box built like it.
pub open spec fn is_allowed(c: char) -> bool {
    c != '\u{A7}' && c >= ' ' && c != '\u{7f}'
}

pub fn allowed(c: char) -> (r: bool)
    ensures
        r == is_allowed(c),
{
    c != '\u{A7}' && c >= ' ' && c != '\u{7f}'
}

pub open spec fn unit_count(c: char) -> nat {
    if c >= '\u{10000}' {
        2
    } else {
        1
    }
}

/// A field's text with one more character, where it still fits.
pub open spec fn if_it_fits(value: Seq<char>, c: char, max_length: u64) -> Seq<char> {
    if units(value) + unit_count(c) <= max_length {
        value.push(c)
    } else {
        value
    }
}

/// What is in a field once a text was typed into it, and how many characters it refused; nothing
/// where a line break was typed into a field that holds one line.
pub open spec fn typing(field: FieldView, before: Seq<char>, typed: Seq<char>) -> Option<
    (Seq<char>, nat),
>
    decreases typed.len(),
{
    if typed.len() == 0 {
        Some((before, 0nat))
    } else {
        match typing(field, before, typed.drop_last()) {
            None => None,
            Some((value, refused)) => {
                let c = typed.last();
                if c == '\n' && !field.multiline {
                    None
                } else if !field.editable || (c != '\n' && !is_allowed(c)) {
                    Some((value, refused + 1))
                } else {
                    Some((if_it_fits(value, c, field.max_length), refused))
                }
            },
        }
    }
}

/// What typing into a field comes to.
pub open spec fn write_of(field: FieldView, before: Seq<char>, typed: Seq<char>) -> Result<
    (Seq<char>, nat),
    FailureView,
> {
    match typing(field, before, typed) {
        None => Err(
            FailureView::refusal(
                "FIELD_IS_ONE_LINE"@,
                field.described() + " holds one line, and the text asked for more than one"@,
            ),
        ),
        Some((value, refused)) => if value == before && typed.len() > 0 {
            Err(
                FailureView::refusal(
                    "NOTHING_TYPED"@,
                    field.described() + " took none of \""@ + typed
                        + "\": either it is read-only, or every character in it is one the client will not send."@,
                ),
            )
        } else {
            Ok((value, refused))
        },
    }
}

/// A field never holds more than it takes, unless it held more before, and one that is not editable
/// holds what it did, with every character refused.
pub proof fn a_field_stays_within_its_length(field: FieldView, before: Seq<char>, typed: Seq<char>)
    ensures
        typing(field, before, typed) matches Some((value, refused)) ==> {
            &&& units(value) <= if units(before) > field.max_length {
                units(before)
            } else {
                field.max_length as nat
            }
            &&& refused <= typed.len()
            &&& before.len() <= value.len() <= before.len() + typed.len()
            &&& value.take(before.len() as int) == before
            &&& !field.editable ==> value == before && refused == typed.len()
        },
    decreases typed.len(),
{
    if typed.len() == 0 {
        assert(before.take(before.len() as int) =~= before);
    } else {
        a_field_stays_within_its_length(field, before, typed.drop_last());
        match typing(field, before, typed.drop_last()) {
            Some((value, refused)) => {
                let c = typed.last();
                let longer = value.push(c);
                assert(longer.drop_last() =~= value);
                assert(longer.take(before.len() as int) =~= value.take(before.len() as int));
            },
            None => {},
        }
    }
}

proof fn one_line_stays_refused(field: FieldView, before: Seq<char>, typed: Seq<char>, n: int)
    requires
        0 <= n <= typed.len(),
        typing(field, before, typed.take(n)) is None,
    ensures
        typing(field, before, typed) is None,
    decreases typed.len() - n,
{
    if n < typed.len() {
        assert(typed.take(n + 1).drop_last() =~= typed.take(n));
        one_line_stays_refused(field, before, typed, n + 1);
    } else {
        assert(typed.take(n) =~= typed);
    }
}

/// Character by character, as the client's text box takes typing: a character a player cannot
/// type, or any character at all in a box that is not editable, is refused and counted; one past
/// the field's length goes nowhere, as it does on screen.
pub fn write(field: &Field, before: &str, typed: &str) -> (r: Result<(String, usize), Failure>)
    ensures
        match r {
            Ok((value, refused)) => write_of(field@, before@, typed@) == Ok::<
                (Seq<char>, nat),
                FailureView,
            >((value@, refused as nat)),
            Err(failure) => write_of(field@, before@, typed@) == Err::<
                (Seq<char>, nat),
                FailureView,
            >(failure@),
        },
{
    let all = letters(typed);
    let mut value: String = before.to_owned();
    let mut refused: usize = 0;
    let mut i: usize = 0;
    proof {
        assert(typed@.take(0) =~= Seq::<char>::empty());
    }
    while i < all.len()
        invariant
            i <= all@.len(),
            all@ == typed@,
            refused <= i,
            typing(field@, before@, typed@.take(i as int)) == Some((value@, refused as nat)),
        decreases all@.len() - i,
    {
        let c = all[i];
        proof {
            assert(typed@.take(i as int + 1).drop_last() =~= typed@.take(i as int));
            assert(typed@.take(i as int + 1).last() == c);
        }
        if c == '\n' && !field.multiline {
            proof {
                one_line_stays_refused(field@, before@, typed@, i as int + 1);
            }
            return Err(
                Failure::refused(
                    "FIELD_IS_ONE_LINE",
                    cat2(
                        field.describe().as_str(),
                        " holds one line, and the text asked for more than one",
                    ),
                ),
            );
        }
        if !field.editable || (c != '\n' && !allowed(c)) {
            refused += 1;
        } else {
            let more: u128 = if c >= '\u{10000}' {
                2
            } else {
                1
            };
            proof {
                units_are_bounded(value@);
            }
            let length: u128 = utf16_len(value.as_str());
            if length < 0xffff_ffff_ffff_ffff_ffff && length + more <= field.max_length as u128 {
                value.push(c);
            }
        }
        i += 1;
    }
    proof {
        assert(typed@.take(typed@.len() as int) =~= typed@);
    }
    if same(value.as_str(), before) && all.len() > 0 {
        return Err(
            Failure::refused(
                "NOTHING_TYPED",
                cat4(
                    field.describe().as_str(),
                    " took none of \"",
                    typed,
                    "\": either it is read-only, or every character in it is one the client will not send.",
                ),
            ),
        );
    }
    Ok((value, refused))
}

/// The line of a sign that is asked for, counted from nothing.
pub open spec fn line_number(wanted: Seq<char>) -> Option<int> {
    let digits = trimmed(replaced(lowercase_of(wanted), "line"@, Seq::empty()));
    if digits == seq!['1'] {
        Some(0int)
    } else if digits == seq!['2'] {
        Some(1int)
    } else if digits == seq!['3'] {
        Some(2int)
    } else if digits == seq!['4'] {
        Some(3int)
    } else {
        None
    }
}

pub open spec fn no_such_line(wanted: Seq<char>) -> FailureView {
    FailureView::refusal(
        "NO_SUCH_FIELD"@,
        "a sign's fields are its lines, numbered 1 to 4, and \""@ + wanted
            + "\" is not one of them"@,
    )
}

pub fn line_of(wanted: &str) -> (r: Result<usize, Failure>)
    ensures
        match r {
            Ok(line) => line_number(wanted@) == Some(line as int) && line < 4,
            Err(failure) => line_number(wanted@) is None && failure@ == no_such_line(wanted@),
        },
{
    proof {
        reveal_strlit("line");
        reveal_strlit("");
        reveal_strlit("1");
        reveal_strlit("2");
        reveal_strlit("3");
        reveal_strlit("4");
        assert(""@ =~= Seq::empty());
        assert("1"@ =~= seq!['1']);
        assert("2"@ =~= seq!['2']);
        assert("3"@ =~= seq!['3']);
        assert("4"@ =~= seq!['4']);
    }
    let digits = trim(replace(lowercase(wanted).as_str(), "line", "").as_str());
    if same(digits.as_str(), "1") {
        Ok(0)
    } else if same(digits.as_str(), "2") {
        Ok(1)
    } else if same(digits.as_str(), "3") {
        Ok(2)
    } else if same(digits.as_str(), "4") {
        Ok(3)
    } else {
        Err(
            Failure::refused(
                "NO_SUCH_FIELD",
                cat3(
                    "a sign's fields are its lines, numbered 1 to 4, and \"",
                    wanted,
                    "\" is not one of them",
                ),
            ),
        )
    }
}

pub open spec fn refused_note_of(refused: int) -> Seq<char> {
    if refused == 0 {
        "."@
    } else if refused == 1 {
        ". 1 character did not go in: a field takes what a player could type and no more."@
    } else {
        ". "@ + dec(refused)
            + " characters did not go in: a field takes what a player could type and no more."@
    }
}

pub fn refused_note(refused: usize) -> (r: String)
    ensures
        r@ == refused_note_of(refused as int),
{
    if refused == 0 {
        ".".to_owned()
    } else if refused == 1 {
        ". 1 character did not go in: a field takes what a player could type and no more.".to_owned()
    } else {
        cat3(
            ". ",
            decimal(refused as u64).as_str(),
            " characters did not go in: a field takes what a player could type and no more.",
        )
    }
}

pub open spec fn no_field(place: Seq<char>) -> FailureView {
    FailureView::refusal(
        "NO_TEXT_FIELD"@,
        place
            + " has no text field on it. press-dialog-button presses a button and click-slot moves an item; this is only for somewhere text can be written."@,
    )
}

pub fn no_text_field(place: &str) -> (r: Failure)
    ensures
        r@ == no_field(place@),
{
    Failure::refused(
        "NO_TEXT_FIELD",
        cat2(
            place,
            " has no text field on it. press-dialog-button presses a button and click-slot moves an item; this is only for somewhere text can be written.",
        ),
    )
}

pub open spec fn typed_answer(field: FieldView, place: Seq<char>, after: Seq<char>, refused: int) -> AnswerView {
    AnswerView::plain(
        "typed into "@ + field.described() + " on "@ + place + ", which now reads \""@ + after
            + "\""@ + refused_note_of(refused),
    )
}

fn typed_into(field: &Field, place: &str, after: &str, refused: usize) -> (r: Answer)
    ensures
        r@ == typed_answer(field@, place@, after@, refused as int),
{
    let mut text = cat7(
        "typed into ",
        field.describe().as_str(),
        " on ",
        place,
        ", which now reads \"",
        after,
        "\"",
    );
    text.append(refused_note(refused).as_str());
    Answer::text(text)
}

/// The text fields of a dialog, numbered from one.
pub open spec fn text_fields(inputs: Seq<InputView>) -> Seq<FieldView>
    decreases inputs.len(),
{
    if inputs.len() == 0 {
        Seq::empty()
    } else {
        let before = text_fields(inputs.drop_last());
        let input = inputs.last();
        match input.kind {
            KindView::Text(max_length, multiline) => before.push(
                FieldView {
                    key: input.key,
                    label: if input.label.words().len() == 0 {
                        None
                    } else {
                        Some(input.label.words())
                    },
                    index: before.len() as int + 1,
                    max_length,
                    multiline,
                    editable: true,
                },
            ),
            _ => before,
        }
    }
}

fn dialog_fields(open: &Open) -> (r: Vec<Field>)
    ensures
        field_views(r@) == text_fields(inputs_of(open.definition@)),
{
    let inputs = open.inputs();
    let ghost all = inputs_of(open.definition@);
    let count: usize = inputs.len();
    let mut out: Vec<Field> = Vec::new();
    let mut i: usize = 0;
    proof {
        assert(input_views(inputs@).len() == inputs@.len());
        assert(field_views(out@) =~= text_fields(all.take(0)));
    }
    while i < count
        invariant
            i <= count == inputs@.len(),
            input_views(inputs@) == all,
            out@.len() <= i,
            field_views(out@) == text_fields(all.take(i as int)),
        decreases count - i,
    {
        let input = &inputs[i];
        let ghost before = out@;
        proof {
            assert(input_views(inputs@)[i as int] == inputs@[i as int]@);
            assert(all.take(i as int + 1).drop_last() =~= all.take(i as int));
            assert(field_views(out@).len() == out@.len());
        }
        match &input.kind {
            Kind::Text { max_length, multiline } => {
                let words = input.label.words();
                proof {
                    reveal_strlit("");
                    if words@.len() == 0 {
                        assert(words@ =~= ""@);
                    }
                }
                let label = if same(words.as_str(), "") {
                    None
                } else {
                    Some(words)
                };
                out.push(
                    Field {
                        key: input.key.clone(),
                        label,
                        index: out.len() + 1,
                        max_length: *max_length,
                        multiline: *multiline,
                        editable: true,
                    },
                );
                proof {
                    assert(field_views(out@) =~= field_views(before).push(out@.last()@));
                }
            },
            _ => {},
        }
        i += 1;
    }
    proof {
        assert(all.take(all.len() as int) =~= all);
    }
    out
}

/// What typing into a dialog comes to: the text a field holds then, and how many characters it
/// refused.
pub open spec fn dialog_typing(
    definition: Doc,
    holding: Map<Seq<char>, HeldView>,
    typed: Seq<char>,
    wanted: Option<Seq<char>>,
    replaces: bool,
) -> Result<(FieldView, Seq<char>, nat), FailureView> {
    let fields = text_fields(inputs_of(definition));
    if fields.len() == 0 {
        Err(no_field(screen_of(definition)))
    } else {
        match chosen(fields, wanted, screen_of(definition)) {
            Err(failure) => Err(failure),
            Ok(i) => {
                let field = fields[i];
                let before = if !replaces && holding.dom().contains(field.key) {
                    match holding[field.key] {
                        HeldView::Text(value) => value,
                        _ => Seq::empty(),
                    }
                } else {
                    Seq::empty()
                };
                match write_of(field, before, typed) {
                    Err(failure) => Err(failure),
                    Ok((after, refused)) => Ok((field, after, refused)),
                }
            },
        }
    }
}

pub fn type_into_dialog(open: &mut Open, typed: &str, wanted: Option<&str>, replaces: bool) -> (r:
    Outcome)
    ensures
        final(open).definition == old(open).definition,
        ({
            let want = dialog_typing(
                old(open).definition@,
                old(open).holding(),
                typed@,
                match wanted {
                    Some(wanted) => Some(wanted@),
                    None => None,
                },
                replaces,
            );
            match want {
                Ok((field, after, refused)) => {
                    &&& said(r) == Ok::<AnswerView, FailureView>(
                        typed_answer(
                            field,
                            screen_of(old(open).definition@),
                            after,
                            refused as int,
                        ),
                    )
                    &&& final(open).holding() == old(open).holding().insert(
                        field.key,
                        HeldView::Text(after),
                    )
                },
                Err(failure) => {
                    &&& said(r) == Err::<AnswerView, FailureView>(failure)
                    &&& final(open).holding() == old(open).holding()
                },
            }
        }),
{
    let place: &'static str = open.screen();
    let fields = dialog_fields(open);
    proof {
        assert(field_views(fields@).len() == fields@.len());
        reveal_strlit("");
        assert(""@ =~= Seq::empty());
    }
    if fields.len() == 0 {
        return Err(no_text_field(place));
    }
    let at: usize = match choose_field(&fields, wanted, place) {
        Ok(at) => at,
        Err(failure) => {
            return Err(failure);
        },
    };
    let field = &fields[at];
    proof {
        assert(field_views(fields@)[at as int] == fields@[at as int]@);
    }
    let before: String = match open.held(field.key.as_str()) {
        Some(Held::Text(value)) => if replaces {
            "".to_owned()
        } else {
            value.clone()
        },
        _ => "".to_owned(),
    };
    match write(field, before.as_str(), typed) {
        Err(failure) => Err(failure),
        Ok((after, refused)) => {
            let answer = typed_into(field, place, after.as_str(), refused);
            open.hold(field.key.as_str(), Held::Text(after));
            Ok(answer)
        },
    }
}

/// A line of a sign once a text was typed behind what it has: a character goes in while the line
/// still fits the sign, and nothing else does.
pub open spec fn sign_line(before: Seq<char>, typed: Seq<char>, width: nat) -> Seq<char>
    decreases typed.len(),
{
    if typed.len() == 0 {
        before
    } else {
        let so_far = sign_line(before, typed.drop_last(), width);
        let c = typed.last();
        if is_allowed(c) && width_of(so_far.push(c)) <= width {
            so_far.push(c)
        } else {
            so_far
        }
    }
}

fn fill_line(before: String, typed: &str, width: u32) -> (r: String)
    ensures
        r@ == sign_line(before@, typed@, width as nat),
{
    let all = letters(typed);
    let ghost start = before@;
    let mut line = before;
    let mut i: usize = 0;
    proof {
        assert(typed@.take(0) =~= Seq::<char>::empty());
    }
    while i < all.len()
        invariant
            i <= all@.len(),
            all@ == typed@,
            line@ == sign_line(start, typed@.take(i as int), width as nat),
        decreases all@.len() - i,
    {
        proof {
            assert(typed@.take(i as int + 1).drop_last() =~= typed@.take(i as int));
            assert(typed@.take(i as int + 1).last() == all@[i as int]);
        }
        if allowed(all[i]) {
            let mut longer = line.clone();
            longer.push(all[i]);
            if fits(longer.as_str(), width) {
                line = longer;
            }
        }
        i += 1;
    }
    proof {
        assert(typed@.take(typed@.len() as int) =~= typed@);
    }
    line
}

/// A line that fits a sign still fits once more was typed.
pub proof fn a_sign_line_stays_within_the_sign(before: Seq<char>, typed: Seq<char>, width: nat)
    requires
        width_of(before) <= width,
    ensures
        width_of(sign_line(before, typed, width)) <= width,
    decreases typed.len(),
{
    if typed.len() > 0 {
        a_sign_line_stays_within_the_sign(before, typed.drop_last(), width);
    }
}

/// The lines of a sign once the lines of a text were written into it from one line down.
pub open spec fn sign_lines(
    before: Seq<Seq<char>>,
    lines: Seq<Seq<char>>,
    first: int,
    replaces: bool,
    width: nat,
) -> Seq<Seq<char>> {
    Seq::new(
        before.len(),
        |i: int|
            if first <= i < first + lines.len() {
                sign_line(
                    if replaces {
                        Seq::empty()
                    } else {
                        before[i]
                    },
                    lines[i - first],
                    width,
                )
            } else {
                before[i]
            },
    )
}

/// What writing a sign comes to: its lines then, or why not.
pub open spec fn sign_typing(
    before: Seq<Seq<char>>,
    typed: Seq<char>,
    wanted: Option<Seq<char>>,
    replaces: bool,
    width: nat,
) -> Result<Seq<Seq<char>>, FailureView> {
    let lines = split_by(typed, '\n');
    let first = match wanted {
        None => Some(0int),
        Some(wanted) => line_number(wanted),
    };
    match first {
        None => Err(no_such_line(wanted.unwrap())),
        Some(first) => if first + lines.len() > 4 {
            Err(
                FailureView::refusal(
                    "SIGN_TOO_SHORT"@,
                    "a sign has 4 lines, and this writes "@ + dec(lines.len() as int)
                        + " of them from line "@ + dec(first + 1),
                ),
            )
        } else {
            Ok(sign_lines(before, lines, first, replaces, width))
        },
    }
}

/// How wide a line of a sign may draw.
pub open spec fn sign_width(hanging: bool) -> nat {
    if hanging {
        60
    } else {
        90
    }
}

/// What is answered of a sign that was written.
pub open spec fn sign_answer(front: bool, lines: Seq<Seq<char>>) -> AnswerView {
    AnswerView::plain(
        "wrote the "@ + (if front {
            "front"@
        } else {
            "back"@
        }) + " of the sign, which now reads "@ + joined(
            crate::tools::dialogs::in_quotes(lines),
            " / "@,
        ) + ". Closing the editor is what sends it, and it is closed"@ + refused_note_of(0),
    )
}

/// A sign is written a line at a time, from the line asked for down, and the editor is closed
/// afterwards, because closing it is what sends the sign. The sign to send comes back with the
/// answer; an editor that was not written stays open.
pub fn type_into_sign(
    open: &mut Option<SignEditor>,
    typed: &str,
    wanted: Option<&str>,
    replaces: bool,
) -> (r: Result<(SignEditor, Answer), Failure>)
    requires
        *old(open) is Some,
    ensures
        ({
            let editor = (*old(open)).unwrap();
            let want = sign_typing(
                texts(editor.lines@),
                typed@,
                match wanted {
                    Some(wanted) => Some(wanted@),
                    None => None,
                },
                replaces,
                sign_width(editor.hanging),
            );
            match r {
                Ok((sent, answer)) => {
                    &&& want == Ok::<Seq<Seq<char>>, FailureView>(texts(sent.lines@))
                    &&& sent == (SignEditor { lines: sent.lines, ..editor })
                    &&& answer@ == sign_answer(editor.front, texts(sent.lines@))
                    &&& *final(open) is None
                },
                Err(failure) => {
                    &&& want == Err::<Seq<Seq<char>>, FailureView>(failure@)
                    &&& *final(open) == *old(open)
                },
            }
        }),
{
    let first: usize = match wanted {
        None => 0,
        Some(wanted) => match line_of(wanted) {
            Ok(line) => line,
            Err(failure) => {
                return Err(failure);
            },
        },
    };
    let lines = split(typed, '\n');
    proof {
        assert(texts(lines@).len() == lines@.len());
    }
    if lines.len() > 4 - first {
        return Err(
            Failure::refused(
                "SIGN_TOO_SHORT",
                cat4(
                    "a sign has 4 lines, and this writes ",
                    decimal(lines.len() as u64).as_str(),
                    " of them from line ",
                    decimal(first as u64 + 1).as_str(),
                ),
            ),
        );
    }
    match open.take() {
        Some(editor) => {
            let mut editor = editor;
            let ghost before = texts(editor.lines@);
            let ghost start = editor;
            let width: u32 = editor.line_width();
            let ghost want = sign_lines(
                before,
                texts(lines@),
                first as int,
                replaces,
                width as nat,
            );
            let mut at: usize = 0;
            proof {
                reveal_strlit("");
                assert(""@ =~= Seq::empty());
            }
            while at < lines.len()
                invariant
                    at <= lines@.len(),
                    first + lines@.len() <= 4,
                    before.len() == 4,
                    width == sign_width(start.hanging),
                    editor == (SignEditor { lines: editor.lines, ..start }),
                    want == sign_lines(before, texts(lines@), first as int, replaces, width as nat),
                    forall|k: int|
                        0 <= k < 4 && !(first <= k < first + at) ==> (#[trigger] editor.lines@[k])@
                            == before[k],
                    forall|k: int|
                        first <= k < first + at ==> (#[trigger] editor.lines@[k])@ == want[k],
                decreases lines@.len() - at,
            {
                proof {
                    assert(texts(lines@)[at as int] == lines@[at as int]@);
                    reveal_strlit("");
                    assert(""@ =~= Seq::empty());
                }
                let held: String = if replaces {
                    "".to_owned()
                } else {
                    editor.lines[first + at].clone()
                };
                let written = fill_line(held, lines[at].as_str(), width);
                let ghost old_lines = editor.lines@;
                editor.lines[first + at] = written;
                proof {
                    assert(editor.lines@ =~= old_lines.update(first + at, written));
                }
                at += 1;
            }
            proof {
                assert(texts(editor.lines@) =~= want);
            }
            let mut reads: Vec<String> = Vec::new();
            let mut i: usize = 0;
            while i < 4
                invariant
                    i <= 4,
                    reads@.len() == i,
                    forall|k: int|
                        0 <= k < i ==> (#[trigger] reads@[k])@ == quoted(editor.lines@[k]@),
                decreases 4 - i,
            {
                reads.push(quote(editor.lines[i].as_str()));
                i += 1;
            }
            proof {
                assert(texts(reads@) =~= crate::tools::dialogs::in_quotes(texts(editor.lines@)));
            }
            let face: &str = if editor.front {
                "front"
            } else {
                "back"
            };
            let text = cat6(
                "wrote the ",
                face,
                " of the sign, which now reads ",
                join(&reads, " / ").as_str(),
                ". Closing the editor is what sends it, and it is closed",
                refused_note(0).as_str(),
            );
            Ok((editor, Answer::text(text)))
        },
        None => Err(Failure::not_in_game()),
    }
}

/// The fields of the command block editor.
pub open spec fn command_fields() -> Seq<FieldView> {
    seq![
        FieldView {
            key: "command"@,
            label: Some("Console Command"@),
            index: 1,
            max_length: COMMAND_LENGTH,
            multiline: false,
            editable: true,
        },
        FieldView {
            key: "output"@,
            label: Some("Previous Output"@),
            index: 2,
            max_length: COMMAND_LENGTH,
            multiline: false,
            editable: false,
        },
    ]
}

/// What typing into the command block editor comes to.
pub open spec fn command_typing(
    loaded: bool,
    command: Seq<char>,
    typed: Seq<char>,
    wanted: Option<Seq<char>>,
    replaces: bool,
) -> Result<(FieldView, Seq<char>, nat), FailureView> {
    if !loaded {
        Err(
            FailureView::refusal(
                "EDITOR_NOT_LOADED"@,
                "the command block editor is still waiting for the server to send the block's command, which replaces whatever is typed before it arrives. Wait a few ticks and type again."@,
            ),
        )
    } else {
        match chosen(command_fields(), wanted, COMMAND_SCREEN@) {
            Err(failure) => Err(failure),
            Ok(i) => {
                let field = command_fields()[i];
                let before = if field.editable && !replaces {
                    command
                } else {
                    Seq::empty()
                };
                match write_of(field, before, typed) {
                    Err(failure) => Err(failure),
                    Ok((after, refused)) => Ok((field, after, refused)),
                }
            },
        }
    }
}

/// Type into the command block editor.
///
/// The editor opens before the server has sent the block's command, and when it arrives it is
/// written over the field. Typed into before then, the field reads right, Done sends the old
/// command, and nothing says the text was ever lost.
pub fn type_into_command_block(
    editor: &mut CommandEditor,
    typed: &str,
    wanted: Option<&str>,
    replaces: bool,
) -> (r: Outcome)
    ensures
        ({
            let want = command_typing(
                old(editor).loaded,
                old(editor).command@,
                typed@,
                match wanted {
                    Some(wanted) => Some(wanted@),
                    None => None,
                },
                replaces,
            );
            match want {
                Ok((field, after, refused)) => {
                    &&& said(r) == Ok::<AnswerView, FailureView>(
                        typed_answer(field, COMMAND_SCREEN@, after, refused as int),
                    )
                    &&& *final(editor) == (CommandEditor {
                        command: final(editor).command,
                        ..*old(editor)
                    })
                    &&& final(editor).command@ == if field.editable {
                        after
                    } else {
                        old(editor).command@
                    }
                },
                Err(failure) => {
                    &&& said(r) == Err::<AnswerView, FailureView>(failure)
                    &&& *final(editor) == *old(editor)
                },
            }
        }),
{
    if !editor.loaded {
        return Err(
            Failure::refused(
                "EDITOR_NOT_LOADED",
                "the command block editor is still waiting for the server to send the block's command, which replaces whatever is typed before it arrives. Wait a few ticks and type again.".to_owned(),
            ),
        );
    }
    let mut fields: Vec<Field> = Vec::new();
    fields.push(
        Field {
            key: "command".to_owned(),
            label: Some("Console Command".to_owned()),
            index: 1,
            max_length: COMMAND_LENGTH,
            multiline: false,
            editable: true,
        },
    );
    fields.push(
        Field {
            key: "output".to_owned(),
            label: Some("Previous Output".to_owned()),
            index: 2,
            max_length: COMMAND_LENGTH,
            multiline: false,
            editable: false,
        },
    );
    proof {
        assert(field_views(fields@) =~= command_fields());
        reveal_strlit("");
        assert(""@ =~= Seq::empty());
    }
    let at: usize = match choose_field(&fields, wanted, COMMAND_SCREEN) {
        Ok(at) => at,
        Err(failure) => {
            return Err(failure);
        },
    };
    let field = &fields[at];
    proof {
        assert(field_views(fields@)[at as int] == fields@[at as int]@);
    }
    let before: String = if field.editable && !replaces {
        editor.command.clone()
    } else {
        "".to_owned()
    };
    match write(field, before.as_str(), typed) {
        Err(failure) => Err(failure),
        Ok((after, refused)) => {
            let answer = typed_into(field, COMMAND_SCREEN, after.as_str(), refused);
            if field.editable {
                editor.command = after;
            }
            Ok(answer)
        },
    }
}

/// What is on screen when no dialog and no editor is.
#[derive(Clone, Copy)]
pub struct OnTop {
    /// A book is held open over the world.
    pub book: bool,
    /// The screen of the menu the server opened, and whether it is an anvil's.
    pub menu: Option<(&'static str, bool)>,
}

/// The screen up when no dialog and no editor is: a book held open over the world, or the one a
/// menu the server opened is drawn by.
pub open spec fn screen_of_top(top: OnTop) -> Option<Seq<char>> {
    if top.book {
        Some(BOOK_SCREEN@)
    } else {
        match top.menu {
            Some((screen, _)) => Some(screen@),
            None => None,
        }
    }
}

/// No dialog and no editor to type into. An anvil's name box is a text field the other kind of bot
/// types into and this one does not model, so its refusal is not the one that says the screen has
/// no field: that would be wrong about the screen.
pub fn nothing_to_type_into(top: OnTop) -> (r: Failure)
    ensures
        r@ == if top.book {
            no_field(BOOK_SCREEN@)
        } else {
            match top.menu {
                Some((screen, true)) => FailureView::refusal(
                    "UNSUPPORTED_INPUT"@,
                    screen@ + " has a name box this bot does not know how to type into"@,
                ),
                Some((screen, false)) => no_field(screen@),
                None => FailureView::refusal(
                    "NO_SCREEN"@,
                    "no screen is open, so there is nothing to type into"@,
                ),
            }
        },
{
    if top.book {
        return no_text_field(BOOK_SCREEN);
    }
    match top.menu {
        Some((screen, anvil)) => if anvil {
            Failure::refused(
                "UNSUPPORTED_INPUT",
                cat2(screen, " has a name box this bot does not know how to type into"),
            )
        } else {
            no_text_field(screen)
        },
        None => Failure::refused(
            "NO_SCREEN",
            "no screen is open, so there is nothing to type into".to_owned(),
        ),
    }
}

/// What closing an editor sends.
pub enum Sending {
    Nothing,
    Sign(SignEditor),
    /// A command block as its editor has it.
    Command(CommandEditor),
}

pub open spec fn sign_screen_of(hanging: bool) -> Seq<char> {
    if hanging {
        "HangingSignEditScreen"@
    } else {
        "SignEditScreen"@
    }
}

/// What is answered of an editor's button that was pressed.
pub open spec fn pressed_editor(label: Seq<char>) -> AnswerView {
    AnswerView::full(
        "pressed "@ + quoted(label),
        Doc::object().with("label"@, Doc::Text(label)).with("confirmed"@, Doc::Bool(false)).with(
            "screenAfter"@,
            Doc::Null,
        ),
    )
}

fn pressed(label: &str) -> (r: Answer)
    ensures
        r@ == pressed_editor(label@),
{
    Answer::data(
        cat2("pressed ", quote(label).as_str()),
        Json::object().with("label", Json::text(label)).with("confirmed", Json::Bool(false)).with(
            "screenAfter",
            Json::Null,
        ),
    )
}

/// A press on the sign editor: its one button sends the sign.
pub fn press_sign(open: &mut Option<SignEditor>, label: &str) -> (r: Result<
    (SignEditor, Answer),
    Failure,
>)
    requires
        *old(open) is Some,
    ensures
        ({
            let editor = (*old(open)).unwrap();
            match r {
                Ok((sent, answer)) => {
                    &&& picked(seq!["Done"@], label@) is Some
                    &&& sent == editor
                    &&& answer@ == pressed_editor("Done"@)
                    &&& *final(open) is None
                },
                Err(failure) => {
                    &&& picked(seq!["Done"@], label@) is None
                    &&& failure@ == no_button(
                        label@,
                        sign_screen_of(editor.hanging),
                        seq!["Done"@],
                    )
                    &&& *final(open) == *old(open)
                },
            }
        }),
{
    let mut labels: Vec<String> = Vec::new();
    labels.push("Done".to_owned());
    proof {
        assert(texts(labels@) =~= seq!["Done"@]);
    }
    let taken = open.take();
    match taken {
        Some(editor) => {
            if pick_by(&labels, label).is_none() {
                let screen: &str = if editor.hanging {
                    "HangingSignEditScreen"
                } else {
                    "SignEditScreen"
                };
                let failure = no_such_button(label, screen, &labels);
                *open = Some(editor);
                return Err(failure);
            }
            Ok((editor, pressed("Done")))
        },
        None => Err(Failure::not_in_game()),
    }
}

/// What a press on the command block editor comes to: the button by what is asked for, with
/// everything but Cancel off until the block's command has arrived.
pub open spec fn command_press(editor: CommandEditor, label: Seq<char>) -> Result<int, FailureView> {
    match picked(editor.labels(), label) {
        None => Err(no_button(label, COMMAND_SCREEN@, editor.labels())),
        Some(i) => if !editor.loaded && editor.labels()[i] != "Cancel"@ {
            Err(
                FailureView::refusal(
                    "BUTTON_DISABLED"@,
                    "the button \""@ + editor.labels()[i] + "\" is disabled"@,
                ),
            )
        } else {
            Ok(i)
        },
    }
}

/// A press on the command block editor: Done sends the block and closes, Cancel closes, and every
/// other button cycles what it shows.
pub fn press_command(open: &mut Option<CommandEditor>, label: &str) -> (r: Result<
    (Sending, Answer),
    Failure,
>)
    requires
        *old(open) is Some,
    ensures
        ({
            let editor = (*old(open)).unwrap();
            match r {
                Ok((sending, answer)) => {
                    &&& command_press(editor, label@) matches Ok(i)
                    &&& answer@ == pressed_editor(editor.labels()[i])
                    &&& if editor.labels()[i] == "Done"@ {
                        sending == Sending::Command(editor) && *final(open) is None
                    } else if editor.labels()[i] == "Cancel"@ {
                        sending is Nothing && *final(open) is None
                    } else {
                        sending is Nothing && *final(open) == Some(editor.pressed(i))
                    }
                },
                Err(failure) => {
                    &&& command_press(editor, label@) == Err::<int, FailureView>(failure@)
                    &&& *final(open) == *old(open)
                },
            }
        }),
{
    let taken = open.take();
    match taken {
        Some(editor) => {
            let mut editor = editor;
            let buttons = editor.buttons();
            let mut labels: Vec<String> = Vec::new();
            let mut i: usize = 0;
            proof {
                assert forall|k: int| 0 <= k < 6 implies (#[trigger] buttons@[k])@
                    == editor.labels()[k] by {
                    assert(texts(buttons@)[k] == buttons@[k]@);
                }
            }
            while i < 6
                invariant
                    i <= 6,
                    labels@.len() == i,
                    forall|k: int|
                        0 <= k < 6 ==> (#[trigger] buttons@[k])@ == editor.labels()[k],
                    forall|k: int| 0 <= k < i ==> (#[trigger] labels@[k])@ == editor.labels()[k],
                decreases 6 - i,
            {
                labels.push(buttons[i].clone());
                i += 1;
            }
            proof {
                assert(texts(labels@) =~= editor.labels());
            }
            let index: usize = match pick_by(&labels, label) {
                Some(index) => index,
                None => {
                    let failure = no_such_button(label, COMMAND_SCREEN, &labels);
                    *open = Some(editor);
                    return Err(failure);
                },
            };
            proof {
                assert(texts(labels@)[index as int] == labels@[index as int]@);
            }
            let words = labels[index].clone();
            if !editor.loaded && !same(words.as_str(), "Cancel") {
                let failure = Failure::refused(
                    "BUTTON_DISABLED",
                    cat3("the button \"", words.as_str(), "\" is disabled"),
                );
                *open = Some(editor);
                return Err(failure);
            }
            let answer = pressed(words.as_str());
            if same(words.as_str(), "Done") {
                Ok((Sending::Command(editor), answer))
            } else if same(words.as_str(), "Cancel") {
                Ok((Sending::Nothing, answer))
            } else {
                editor.press(index);
                *open = Some(editor);
                Ok((Sending::Nothing, answer))
            }
        },
        None => Err(Failure::not_in_game()),
    }
}

/// What is said of a press when no dialog and no editor is open.
pub fn press_nothing(top: OnTop, label: &str) -> (r: Failure)
    ensures
        r@ == match screen_of_top(top) {
            Some(screen) => no_button(label@, screen, Seq::empty()),
            None => FailureView::refusal("NO_SCREEN"@, "no screen is open"@),
        },
{
    let none: Vec<String> = Vec::new();
    proof {
        assert(texts(none@) =~= Seq::empty());
    }
    if top.book {
        return no_such_button(label, BOOK_SCREEN, &none);
    }
    match top.menu {
        Some((screen, _)) => no_such_button(label, screen, &none),
        None => Failure::refused("NO_SCREEN", "no screen is open".to_owned()),
    }
}

/// Escape on an editor: the title it had, what a player would call it, and what closing it sends.
/// Closing is what sends a sign, whichever way it is closed.
pub fn close(sign: &mut Option<SignEditor>, command: &mut Option<CommandEditor>) -> (r: Option<
    (String, &'static str, Sending),
>)
    ensures
        *final(sign) is None,
        *old(sign) is Some ==> *final(command) == *old(command),
        *old(sign) is None ==> *final(command) is None,
        match (*old(sign), *old(command)) {
            (Some(editor), _) => r matches Some((title, what, sending)) && title@
                == if editor.hanging {
                "Edit Hanging Sign Message"@
            } else {
                "Edit Sign Message"@
            } && what@ == "sign editor"@ && sending == Sending::Sign(editor),
            (None, Some(_)) => r matches Some((title, what, sending)) && title@
                == Seq::<char>::empty() && what@ == "command block editor"@ && sending is Nothing,
            (None, None) => r is None,
        },
{
    match sign.take() {
        Some(editor) => {
            let title = editor.title().to_owned();
            return Some((title, "sign editor", Sending::Sign(editor)));
        },
        None => {},
    }
    match command.take() {
        Some(_) => {
            proof {
                reveal_strlit("");
                assert(""@ =~= Seq::empty());
            }
            Some(("".to_owned(), "command block editor", Sending::Nothing))
        },
        None => None,
    }
}

/// Whether a block is a command block.
pub open spec fn is_command_block(block: Seq<char>) -> bool {
    bare(block) == "command_block"@ || bare(block) == "chain_command_block"@ || bare(block)
        == "repeating_command_block"@
}

/// Right-clicking a command block opens its editor on the client, for a player who may use one:
/// in creative, and an operator. The server answers with the block's command, which fills it in.
pub fn opened_command_block(block: &str, creative: bool, permission_level: u8, at: BlockPos) -> (r:
    Option<CommandEditor>)
    ensures
        match r {
            Some(editor) => is_command_block(block@) && creative && permission_level >= 2
                && editor.just_opened(at),
            None => !(is_command_block(block@) && creative && permission_level >= 2),
        },
{
    let name: &str = plain(block);
    let command_block: bool = same(name, "command_block") || same(name, "chain_command_block")
        || same(name, "repeating_command_block");
    if command_block && creative && permission_level >= 2 {
        Some(CommandEditor::new(at))
    } else {
        None
    }
}

/// One face of a sign, as it is answered.
pub open spec fn face_doc(data: Doc, face: Seq<char>) -> Doc {
    let lines = face_lines(data, face);
    Doc::object().with("face"@, Doc::Text(face)).with(
        "lines"@,
        Doc::list(Seq::new(4, |i: int| Doc::Text(lines[i].words()))),
    ).with("lineComponents"@, Doc::list(lines))
}

fn face(data: &Json, name: &str) -> (r: Json)
    ensures
        r@ == face_doc(data@, name@),
{
    let (lines, components) = sign_face(data, name);
    let ghost wanted = face_lines(data@, name@);
    let mut out: Vec<Json> = Vec::new();
    let mut i: usize = 0;
    proof {
        assert(texts(lines@).len() == 4);
        assert(lines@.len() == 4);
    }
    while i < 4
        invariant
            i <= 4,
            lines@.len() == 4,
            out@.len() == i,
            texts(lines@) == Seq::new(4, |i: int| wanted[i].words()),
            forall|k: int|
                0 <= k < i ==> (#[trigger] out@[k])@ == Doc::Text(wanted[k].words()),
        decreases 4 - i,
    {
        proof {
            assert(texts(lines@)[i as int] == lines@[i as int]@);
        }
        out.push(Json::Text(lines[i].clone()));
        i += 1;
    }
    proof {
        assert(docs(out@) =~= Seq::new(4, |i: int| Doc::Text(wanted[i].words())));
    }
    Json::object().with("face", Json::text(name)).with("lines", Json::list(out)).with(
        "lineComponents",
        Json::list(components),
    )
}

/// What read-block-entity answers: both faces of a sign, blanks included. What a client is sent is
/// what a block entity shows, not the server's tag, so there is nothing raw to tell.
pub open spec fn entity_doc(kept: Map<BlockPos, BlockEntity>, block: Seq<char>, at: BlockPos) -> Doc {
    let present = kept.dom().contains(at) && kept[at].fits(block);
    let sign = present && (bare(kept[at].kind@) == "sign"@ || bare(kept[at].kind@)
        == "hanging_sign"@);
    Doc::object().with("block"@, Doc::Text(bare(block))).with("position"@, point_of(at)).with(
        "present"@,
        Doc::Bool(present),
    ).with(
        "signFaces"@,
        Doc::list(
            if sign {
                seq![
                    face_doc(kept[at].data@, "front_text"@),
                    face_doc(kept[at].data@, "back_text"@),
                ]
            } else {
                Seq::empty()
            },
        ),
    ).with("raw"@, Doc::Null)
}

pub fn read_block_entity(kept: &BlockEntities, block: &str, at: BlockPos) -> (r: Answer)
    ensures
        r@ == AnswerView::full("read-block-entity"@, entity_doc(kept@, block@, at)),
{
    let found = kept.at(at, block);
    let present: bool = found.is_some();
    let mut faces: Vec<Json> = Vec::new();
    match found {
        Some(entity) => {
            if is_sign(entity.kind.as_str()) {
                faces.push(face(&entity.data, "front_text"));
                faces.push(face(&entity.data, "back_text"));
                proof {
                    assert(docs(faces@) =~= seq![
                        face_doc(kept@[at].data@, "front_text"@),
                        face_doc(kept@[at].data@, "back_text"@),
                    ]);
                }
            }
        },
        None => {},
    }
    proof {
        if faces@.len() == 0 {
            assert(docs(faces@) =~= Seq::empty());
        }
    }
    Answer::data(
        "read-block-entity".to_owned(),
        Json::object().with("block", Json::text(plain(block))).with("position", point(at)).with(
            "present",
            Json::Bool(present),
        ).with("signFaces", Json::list(faces)).with("raw", Json::Null),
    )
}

/// A character goes in where a player could type it, the field is editable and there is room; where
/// there is none it goes nowhere, and where it could not be typed it is refused.
pub proof fn a_character_goes_in_where_it_can(
    field: FieldView,
    before: Seq<char>,
    typed: Seq<char>,
    c: char,
    value: Seq<char>,
    refused: nat,
)
    requires
        typing(field, before, typed) == Some((value, refused)),
    ensures
        typing(field, before, Seq::empty()) == Some((before, 0nat)),
        ({
            let more = typing(field, before, typed.push(c));
            let typable = c == '\n' || (c != '\u{A7}' && c >= ' ' && c != '\u{7f}');
            let units_of_c: nat = if c >= '\u{10000}' {
                2
            } else {
                1
            };
            &&& c == '\n' && !field.multiline ==> more is None
            &&& !(c == '\n' && !field.multiline) && (!field.editable || !typable) ==> more == Some(
                (value, refused + 1),
            )
            &&& !(c == '\n' && !field.multiline) && field.editable && typable && units(value)
                + units_of_c <= field.max_length ==> more == Some((value.push(c), refused))
            &&& !(c == '\n' && !field.multiline) && field.editable && typable && units(value)
                + units_of_c > field.max_length ==> more == Some((value, refused))
        }),
{
    assert(typed.push(c).drop_last() =~= typed);
}

/// What a field is asked for by: its label in whole, its number, and only then a part of its label.
pub proof fn a_field_goes_by_its_label_or_number(field: FieldView, wanted: Seq<char>)
    ensures
        field.label matches Some(label) ==> (lowercase_of(label) == lowercase_of(wanted)
            ==> field.is_called(wanted)) && (occurs(lowercase_of(label), lowercase_of(wanted))
            <==> field.sounds_like(wanted)) && field.described() == quoted(label),
        dec(field.index) == wanted ==> field.is_called(wanted),
        field.label is None ==> field.described() == "field "@ + dec(field.index)
            && !field.sounds_like(wanted),
{
}

proof fn called_first(fields: Seq<FieldView>, wanted: Seq<char>, from: int)
    requires
        0 <= from,
    ensures
        match first_called(fields, wanted, from) {
            Some(i) => from <= i < fields.len() && fields[i].is_called(wanted),
            None => forall|i: int|
                from <= i < fields.len() ==> !(#[trigger] fields[i]).is_called(wanted),
        },
        match first_alike(fields, wanted, from) {
            Some(i) => from <= i < fields.len() && fields[i].sounds_like(wanted),
            None => forall|i: int|
                from <= i < fields.len() ==> !(#[trigger] fields[i]).sounds_like(wanted),
        },
    decreases fields.len() - from,
{
    if from < fields.len() {
        called_first(fields, wanted, from + 1);
    }
}

/// The field that is typed into is the only one, or the one that was asked for.
pub proof fn the_field_is_the_one_asked_for(
    fields: Seq<FieldView>,
    wanted: Seq<char>,
    place: Seq<char>,
    other: int,
)
    requires
        0 <= other < fields.len(),
    ensures
        fields.len() == 1 ==> chosen(fields, None, place) == Ok::<int, FailureView>(0),
        fields.len() > 1 ==> (chosen(fields, None, place) matches Err(failure) && failure.code
            == "FIELD_NOT_NAMED"@),
        chosen(fields, Some(wanted), place) matches Ok(i) ==> 0 <= i < fields.len() && (
        fields[i].is_called(wanted) || (fields[i].sounds_like(wanted) && !fields[other].is_called(
            wanted,
        ))),
        chosen(fields, Some(wanted), place) matches Err(failure) ==> failure.code == "NO_SUCH_FIELD"@
            && !fields[other].is_called(wanted) && !fields[other].sounds_like(wanted),
{
    called_first(fields, wanted, 0);
}

/// A line of a sign is asked for by its number, with the word before it or without.
pub proof fn a_sign_line_goes_by_its_number(wanted: Seq<char>)
    ensures
        ({
            let digits = trimmed(replaced(lowercase_of(wanted), "line"@, Seq::empty()));
            &&& digits == "1"@ ==> line_number(wanted) == Some(0int)
            &&& digits == "2"@ ==> line_number(wanted) == Some(1int)
            &&& digits == "3"@ ==> line_number(wanted) == Some(2int)
            &&& digits == "4"@ ==> line_number(wanted) == Some(3int)
            &&& digits != "1"@ && digits != "2"@ && digits != "3"@ && digits != "4"@ ==> line_number(
                wanted,
            ) is None
        }),
{
    reveal_strlit("1");
    reveal_strlit("2");
    reveal_strlit("3");
    reveal_strlit("4");
    assert("1"@ =~= seq!['1']);
    assert("2"@ =~= seq!['2']);
    assert("3"@ =~= seq!['3']);
    assert("4"@ =~= seq!['4']);
    assert(seq!['1'][0] != seq!['2'][0] && seq!['1'][0] != seq!['3'][0] && seq!['1'][0] != seq!['4'][0]);
    assert(seq!['2'][0] != seq!['3'][0] && seq!['2'][0] != seq!['4'][0] && seq!['3'][0] != seq!['4'][0]);
}

/// A sign is written from the line asked for down, over what was there where that is asked for and
/// behind it otherwise, and its other lines stay. More than its four lines are refused.
pub proof fn a_sign_is_written_from_its_line_down(
    before: Seq<Seq<char>>,
    typed: Seq<char>,
    wanted: Option<Seq<char>>,
    replaces: bool,
    width: nat,
    first: int,
    i: int,
)
    requires
        before.len() == 4,
        0 <= i < 4,
        match wanted {
            None => first == 0,
            Some(wanted) => line_number(wanted) == Some(first),
        },
    ensures
        first + split_by(typed, '\n').len() > 4 ==> (sign_typing(before, typed, wanted, replaces, width) matches Err(
            failure,
        ) && failure.code == "SIGN_TOO_SHORT"@),
        first + split_by(typed, '\n').len() <= 4 ==> (sign_typing(
            before,
            typed,
            wanted,
            replaces,
            width,
        ) matches Ok(after) && {
            let lines = split_by(typed, '\n');
            &&& after.len() == 4
            &&& i < first || i >= first + lines.len() ==> after[i] == before[i]
            &&& first <= i < first + lines.len() ==> after[i] == sign_line(
                if replaces {
                    Seq::empty()
                } else {
                    before[i]
                },
                lines[i - first],
                width,
            )
        }),
        sign_width(true) == 60,
        sign_width(false) == 90,
{
}

/// A character goes on a line of a sign where it can be typed and the line is not too wide with it.
pub proof fn a_sign_line_takes_what_fits(before: Seq<char>, typed: Seq<char>, c: char, width: nat)
    ensures
        sign_line(before, Seq::empty(), width) == before,
        ({
            let so_far = sign_line(before, typed, width);
            let typable = c != '\u{A7}' && c >= ' ' && c != '\u{7f}';
            &&& typable && width_of(so_far.push(c)) <= width ==> sign_line(
                before,
                typed.push(c),
                width,
            ) == so_far.push(c)
            &&& !typable || width_of(so_far.push(c)) > width ==> sign_line(before, typed.push(c), width)
                == so_far
        }),
{
    assert(typed.push(c).drop_last() =~= typed);
}

/// The fields of a dialog are its text inputs, in order, numbered from one, each as long as it may be.
pub proof fn the_fields_are_the_text_inputs(inputs: Seq<InputView>, input: InputView)
    ensures
        ({
            let before = text_fields(inputs);
            let all = text_fields(inputs.push(input));
            &&& text_fields(Seq::empty()).len() == 0
            &&& !(input.kind is Text) ==> all == before
            &&& input.kind matches KindView::Text(max_length, multiline) ==> {
                &&& all.len() == before.len() + 1
                &&& all.last().key == input.key
                &&& all.last().index == before.len() + 1
                &&& all.last().max_length == max_length
                &&& all.last().multiline == multiline
                &&& all.last().editable
                &&& input.label.words().len() > 0 ==> all.last().label == Some(input.label.words())
                &&& input.label.words().len() == 0 ==> all.last().label is None
            }
        }),
{
    assert(inputs.push(input).drop_last() =~= inputs);
}

/// A command block's editor has its command to type into and its output to read, and takes nothing
/// until the block's command arrived. What is typed goes over the command or behind it.
pub proof fn a_command_is_typed_once_it_is_loaded(
    command: Seq<char>,
    typed: Seq<char>,
    wanted: Option<Seq<char>>,
    replaces: bool,
)
    ensures
        command_typing(false, command, typed, wanted, replaces) matches Err(failure) && failure.code
            == "EDITOR_NOT_LOADED"@,
        command_fields().len() == 2,
        command_fields()[0].editable && !command_fields()[1].editable,
        command_fields()[0].label == Some("Console Command"@),
        command_fields()[1].label == Some("Previous Output"@),
        command_fields()[0].index == 1 && command_fields()[1].index == 2,
        command_fields()[0].max_length == 32_500,
        !command_fields()[0].multiline,
        chosen(command_fields(), wanted, COMMAND_SCREEN@) == Ok::<int, FailureView>(0) ==> {
            let base = if replaces {
                Seq::<char>::empty()
            } else {
                command
            };
            match write_of(command_fields()[0], base, typed) {
                Ok((after, refused)) => command_typing(true, command, typed, wanted, replaces) == Ok::<
                    (FieldView, Seq<char>, nat),
                    FailureView,
                >((command_fields()[0], after, refused)),
                Err(failure) => command_typing(true, command, typed, wanted, replaces) == Err::<
                    (FieldView, Seq<char>, nat),
                    FailureView,
                >(failure),
            }
        },
{
}

/// Until a command block's command arrived only Cancel can be pressed.
pub proof fn only_cancel_is_pressed_before_it_is_loaded(editor: CommandEditor, label: Seq<char>, i: int)
    requires
        picked(editor.labels(), label) == Some(i),
    ensures
        editor.loaded ==> command_press(editor, label) == Ok::<int, FailureView>(i),
        !editor.loaded && editor.labels()[i] == "Cancel"@ ==> command_press(editor, label) == Ok::<
            int,
            FailureView,
        >(i),
        !editor.loaded && editor.labels()[i] != "Cancel"@ ==> (command_press(editor, label) matches Err(
            failure,
        ) && failure.code == "BUTTON_DISABLED"@),
{
}

/// What is told of a block entity: the block, where it is, whether there is one, and both faces of a
/// sign, the front first.
pub proof fn a_block_entity_is_told_as_it_stands(
    kept: Map<BlockPos, BlockEntity>,
    block: Seq<char>,
    at: BlockPos,
)
    ensures
        ({
            let told = entity_doc(kept, block, at);
            let faces = told.items_at("signFaces"@)->0;
            &&& told.text_at("block"@) == Some(bare(block))
            &&& told.at("position"@) == Some(point_of(at))
            &&& told.bool_at("present"@) == Some(kept.dom().contains(at) && kept[at].fits(block))
            &&& !kept.dom().contains(at) ==> faces.len() == 0
            &&& kept.dom().contains(at) && kept[at].fits(block) && (bare(kept[at].kind@) == "sign"@
                || bare(kept[at].kind@) == "hanging_sign"@) ==> {
                &&& faces.len() == 2
                &&& faces[0].text_at("face"@) == Some("front_text"@)
                &&& faces[1].text_at("face"@) == Some("back_text"@)
                &&& faces[0].items_at("lineComponents"@) == Some(
                    face_lines(kept[at].data@, "front_text"@),
                )
                &&& faces[1].items_at("lineComponents"@) == Some(
                    face_lines(kept[at].data@, "back_text"@),
                )
            }
        }),
{
    broadcast use {a_field_reads_back, an_empty_object_has_nothing};
    reveal_strlit("block");
    reveal_strlit("position");
    reveal_strlit("present");
    reveal_strlit("signFaces");
    reveal_strlit("raw");
    reveal_strlit("face");
    reveal_strlit("lines");
    reveal_strlit("lineComponents");
    assert("block"@.len() == 5);
    assert("position"@.len() == 8);
    assert("present"@.len() == 7);
    assert("signFaces"@.len() == 9);
    assert("raw"@.len() == 3);
    assert("face"@.len() == 4);
    assert("lines"@.len() == 5);
    assert("lineComponents"@.len() == 14);
    assert("block"@[0] != "lines"@[0]);
}

/// A face of a sign is told in words and as it was written, line by line.
pub proof fn a_face_is_told_line_by_line(data: Doc, face: Seq<char>, i: int)
    requires
        0 <= i < 4,
    ensures
        face_doc(data, face).text_at("face"@) == Some(face),
        face_doc(data, face).items_at("lines"@)->0[i] == Doc::Text(face_lines(data, face)[i].words()),
        face_doc(data, face).items_at("lineComponents"@)->0[i] == face_lines(data, face)[i],
{
    broadcast use {a_field_reads_back, an_empty_object_has_nothing};
    reveal_strlit("face");
    reveal_strlit("lines");
    reveal_strlit("lineComponents");
    assert("face"@.len() == 4);
    assert("lines"@.len() == 5);
    assert("lineComponents"@.len() == 14);
}

/// What is said of a screen that is on top: a book over the world before the menu.
pub proof fn a_book_is_on_top_of_a_menu(top: OnTop)
    ensures
        top.book ==> screen_of_top(top) == Some("BookViewScreen"@),
        !top.book ==> (top.menu matches Some((screen, _)) ==> screen_of_top(top) == Some(screen@)),
        !top.book && top.menu is None ==> screen_of_top(top) is None,
        sign_screen_of(true) == "HangingSignEditScreen"@,
        sign_screen_of(false) == "SignEditScreen"@,
{
}

/// What is typed into a dialog goes into the field that was asked for, behind what it holds or in its
/// place.
pub proof fn what_is_typed_goes_into_its_field(
    definition: Doc,
    holding: Map<Seq<char>, HeldView>,
    typed: Seq<char>,
    wanted: Option<Seq<char>>,
    replaces: bool,
    i: int,
)
    requires
        text_fields(inputs_of(definition)).len() > 0,
        chosen(text_fields(inputs_of(definition)), wanted, screen_of(definition)) == Ok::<
            int,
            FailureView,
        >(i),
    ensures
        ({
            let field = text_fields(inputs_of(definition))[i];
            let fresh = write_of(field, Seq::empty(), typed);
            let done = dialog_typing(definition, holding, typed, wanted, replaces);
            &&& replaces || !holding.dom().contains(field.key) ==> match fresh {
                Ok((after, refused)) => done == Ok::<(FieldView, Seq<char>, nat), FailureView>(
                    (field, after, refused),
                ),
                Err(failure) => done == Err::<(FieldView, Seq<char>, nat), FailureView>(failure),
            }
            &&& !replaces && holding.dom().contains(field.key) ==> (
            holding[field.key] matches HeldView::Text(value) ==> match write_of(field, value, typed) {
                Ok((after, refused)) => done == Ok::<(FieldView, Seq<char>, nat), FailureView>(
                    (field, after, refused),
                ),
                Err(failure) => done == Err::<(FieldView, Seq<char>, nat), FailureView>(failure),
            })
        }),
{
}

/// A dialog without a text field takes no text.
pub proof fn a_dialog_without_fields_takes_no_text(
    definition: Doc,
    holding: Map<Seq<char>, HeldView>,
    typed: Seq<char>,
    wanted: Option<Seq<char>>,
    replaces: bool,
)
    ensures
        text_fields(inputs_of(definition)).len() == 0 ==> (dialog_typing(
            definition,
            holding,
            typed,
            wanted,
            replaces,
        ) matches Err(failure) && failure.code == "NO_TEXT_FIELD"@),
{
}

/// What a field comes to: what went in and how many characters did not, and a refusal where nothing
/// went in or there were too many lines.
pub proof fn what_was_written_is_what_went_in(field: FieldView, before: Seq<char>, typed: Seq<char>)
    ensures
        typing(field, before, typed) is None ==> (write_of(field, before, typed) matches Err(failure)
            && failure.code == "FIELD_IS_ONE_LINE"@),
        typing(field, before, typed) matches Some((value, refused)) ==> (value == before && typed.len()
            > 0 ==> (write_of(field, before, typed) matches Err(failure) && failure.code
            == "NOTHING_TYPED"@)) && (value != before ==> write_of(field, before, typed) == Ok::<
            (Seq<char>, nat),
            FailureView,
        >((value, refused))),
{
}

/// What is answered of typing: the field, the screen, what it now reads and how much did not go in.
pub proof fn an_answer_says_what_did_not_go_in(
    field: FieldView,
    place: Seq<char>,
    after: Seq<char>,
    refused: int,
    label: Seq<char>,
)
    ensures
        typed_answer(field, place, after, refused).text == "typed into "@ + field.described() + " on "@
            + place + ", which now reads \""@ + after + "\""@ + refused_note_of(refused),
        refused_note_of(0) == "."@,
        refused > 1 ==> refused_note_of(refused) == ". "@ + dec(refused)
            + " characters did not go in: a field takes what a player could type and no more."@,
        pressed_editor(label).data->0.text_at("label"@) == Some(label),
        pressed_editor(label).data->0.bool_at("confirmed"@) == Some(false),
        pressed_editor(label).data->0.at("screenAfter"@) == Some(Doc::Null),
{
    broadcast use {a_field_reads_back, an_empty_object_has_nothing};
    reveal_strlit("label");
    reveal_strlit("confirmed");
    reveal_strlit("screenAfter");
    assert("label"@.len() == 5);
    assert("confirmed"@.len() == 9);
    assert("screenAfter"@.len() == 11);
}

/// These blocks have a command editor.
pub proof fn these_blocks_have_a_command_editor(block: Seq<char>)
    ensures
        is_command_block(block) <==> bare(block) == "command_block"@ || bare(block)
            == "chain_command_block"@ || bare(block) == "repeating_command_block"@,
{
}

/// A field reads as it is held.
pub proof fn a_field_reads_as_it_is_held(field: Field)
    ensures
        field@.key == field.key@ && field@.index == field.index && field@.max_length == field.max_length
            && field@.multiline == field.multiline && field@.editable == field.editable,
        field.label matches Some(label) ==> field@.label == Some(label@),
        field.label is None ==> field@.label is None,
{
}

} // verus!
