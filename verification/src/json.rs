//! Documents: what a message, a call's arguments and an answer are made of.
//!
//! The bytes of a document are read and written at the border of the program. What the border
//! hands over is the whole document as plain values, and with each list and object the words the
//! game would draw it as were it a text component, which only the game's own reader can tell.
use vstd::prelude::*;

use crate::words::same;

verus! {

/// A number that is no integer, as the plain values its readers ask for.
#[derive(Clone, Copy, Debug, PartialEq, Eq, Structural)]
pub struct Fraction {
    /// The bits of the double it is.
    pub bits: u64,
    /// The integer it is, where it is one, as far as 64 bits go.
    pub whole: Option<i64>,
    /// The greatest integer at most the number, as far as 32 bits go.
    pub floor: i32,
    /// The number without its fraction, as far as 32 bits go.
    pub cut: i32,
}

#[derive(Clone, Copy, Debug, PartialEq, Eq, Structural)]
pub enum Number {
    /// An integer that fits in 64 signed bits.
    Whole(i64),
    /// An integer over those that fits in 64 unsigned bits.
    Large(u64),
    Fraction(Fraction),
}

/// A value within the 32 bits an integer of the game has.
pub open spec fn within_i32(n: int) -> int {
    if n < i32::MIN {
        i32::MIN as int
    } else if n > i32::MAX {
        i32::MAX as int
    } else {
        n
    }
}

impl Number {
    /// Whether the number says what it is: a large one is no integer of 64 signed bits.
    pub open spec fn valid(self) -> bool {
        match self {
            Number::Large(n) => n > i64::MAX,
            _ => true,
        }
    }

    pub open spec fn int_of(self) -> Option<i64> {
        match self {
            Number::Whole(n) => Some(n),
            _ => None,
        }
    }

    /// Whether the number is nothing, of either sign.
    pub open spec fn zero(self) -> bool {
        match self {
            Number::Whole(n) => n == 0,
            Number::Large(n) => n == 0,
            Number::Fraction(f) => f.bits == 0 || f.bits == 0x8000_0000_0000_0000,
        }
    }

    /// Whether two numbers are the same: integers by value, fractions as doubles are, nothing being the
    /// same with either sign. An integer and a fraction never are.
    pub open spec fn alike(self, other: Number) -> bool {
        match (self, other) {
            (Number::Whole(a), Number::Whole(b)) => a == b,
            (Number::Large(a), Number::Large(b)) => a == b,
            (Number::Fraction(a), Number::Fraction(b)) => a.bits == b.bits || (self.zero()
                && other.zero()),
            _ => false,
        }
    }

    pub open spec fn nat_of(self) -> Option<u64> {
        match self {
            Number::Whole(n) => if n >= 0 {
                Some(n as u64)
            } else {
                None
            },
            Number::Large(n) => Some(n),
            Number::Fraction(_) => None,
        }
    }

    pub open spec fn floor_of(self) -> int {
        match self {
            Number::Whole(n) => within_i32(n as int),
            Number::Large(n) => within_i32(n as int),
            Number::Fraction(f) => f.floor as int,
        }
    }

    pub open spec fn cut_of(self) -> int {
        match self {
            Number::Whole(n) => within_i32(n as int),
            Number::Large(n) => within_i32(n as int),
            Number::Fraction(f) => f.cut as int,
        }
    }

    pub fn as_i64(&self) -> (r: Option<i64>)
        ensures
            r == self.int_of(),
    {
        match self {
            Number::Whole(n) => Some(*n),
            _ => None,
        }
    }

    pub fn as_u64(&self) -> (r: Option<u64>)
        ensures
            r == self.nat_of(),
    {
        match self {
            Number::Whole(n) => if *n >= 0 {
                Some(*n as u64)
            } else {
                None
            },
            Number::Large(n) => Some(*n),
            Number::Fraction(_) => None,
        }
    }

    pub fn is_zero(&self) -> (r: bool)
        ensures
            r == self.zero(),
    {
        match self {
            Number::Whole(n) => *n == 0,
            Number::Large(n) => *n == 0,
            Number::Fraction(f) => f.bits == 0 || f.bits == 0x8000_0000_0000_0000,
        }
    }

    fn equals(&self, other: &Number) -> (r: bool)
        ensures
            r == self.alike(*other),
    {
        match (self, other) {
            (Number::Whole(a), Number::Whole(b)) => *a == *b,
            (Number::Large(a), Number::Large(b)) => *a == *b,
            (Number::Fraction(a), Number::Fraction(b)) => a.bits == b.bits || (self.is_zero()
                && other.is_zero()),
            _ => false,
        }
    }

    /// The block coordinate the number lies in.
    pub fn floor(&self) -> (r: i32)
        ensures
            r == self.floor_of(),
    {
        match self {
            Number::Whole(n) => narrowed(*n),
            Number::Large(n) => if *n > 0x7fff_ffff {
                i32::MAX
            } else {
                *n as i32
            },
            Number::Fraction(f) => f.floor,
        }
    }

    /// The number with its fraction cut off.
    pub fn cut(&self) -> (r: i32)
        ensures
            r == self.cut_of(),
    {
        match self {
            Number::Whole(n) => narrowed(*n),
            Number::Large(n) => if *n > 0x7fff_ffff {
                i32::MAX
            } else {
                *n as i32
            },
            Number::Fraction(f) => f.cut,
        }
    }
}

fn narrowed(n: i64) -> (r: i32)
    ensures
        r == within_i32(n as int),
{
    if n < i32::MIN as i64 {
        i32::MIN
    } else if n > i32::MAX as i64 {
        i32::MAX
    } else {
        n as i32
    }
}

/// A document as mathematics has it. Behind a list's items and an object's fields stand the words
/// the game would draw it as.
#[verifier::ext_equal]
pub enum Doc {
    Null,
    Bool(bool),
    Number(Number),
    Text(Seq<char>),
    Array(Seq<Doc>, Seq<char>),
    Object(Seq<(Seq<char>, Doc)>, Seq<char>),
}

/// Whether one of a list of fields has a name.
pub open spec fn named_in(fields: Seq<(Seq<char>, Doc)>, name: Seq<char>) -> bool {
    exists|i: int| 0 <= i < fields.len() && (#[trigger] fields[i]).0 == name
}

/// The first of a list of fields that has a name.
pub open spec fn field(fields: Seq<(Seq<char>, Doc)>, name: Seq<char>) -> Option<Doc>
    decreases fields.len(),
{
    if fields.len() == 0 {
        None
    } else if fields[0].0 == name {
        Some(fields[0].1)
    } else {
        field(fields.drop_first(), name)
    }
}

/// The place of the first of a list of fields that has a name, or the end.
pub open spec fn place(fields: Seq<(Seq<char>, Doc)>, name: Seq<char>) -> int
    decreases fields.len(),
{
    if fields.len() == 0 || fields[0].0 == name {
        0
    } else {
        1 + place(fields.drop_first(), name)
    }
}

impl Doc {
    /// The object with a field set: in its place where it has one of the name, and else behind the
    /// others.
    pub open spec fn put(self, name: Seq<char>, value: Doc) -> Doc {
        match self {
            Doc::Object(fields, drawn) => if place(fields, name) < fields.len() {
                Doc::Object(fields.update(place(fields, name), (name, value)), drawn)
            } else {
                Doc::Object(fields.push((name, value)), drawn)
            },
            other => other,
        }
    }

    pub open spec fn object() -> Doc {
        Doc::Object(Seq::empty(), Seq::empty())
    }

    /// The document with one more field behind the others.
    pub open spec fn with(self, name: Seq<char>, value: Doc) -> Doc {
        match self {
            Doc::Object(fields, drawn) => Doc::Object(fields.push((name, value)), drawn),
            other => other,
        }
    }

    /// The document with one more field, where there is a value for it.
    pub open spec fn with_some(self, name: Seq<char>, value: Option<Doc>) -> Doc {
        match value {
            Some(value) => self.with(name, value),
            None => self,
        }
    }

    /// The object with the words the game draws it as.
    pub open spec fn drawn(self, words: Seq<char>) -> Doc {
        match self {
            Doc::Object(fields, _) => Doc::Object(fields, words),
            other => other,
        }
    }

    pub open spec fn list(items: Seq<Doc>) -> Doc {
        Doc::Array(items, Seq::empty())
    }

    pub open spec fn number(n: int) -> Doc {
        Doc::Number(
            if n <= i64::MAX {
                Number::Whole(n as i64)
            } else {
                Number::Large(n as u64)
            },
        )
    }

    /// What a field holds, where the document is an object that has it.
    /// Whether two documents hold the same values: lists in order, objects field by field in whatever
    /// order. The words they are drawn as follow from those values.
    pub open spec fn alike(self, other: Doc) -> bool
        decreases self, 0int,
    {
        match (self, other) {
            (Doc::Null, Doc::Null) => true,
            (Doc::Bool(a), Doc::Bool(b)) => a == b,
            (Doc::Number(a), Doc::Number(b)) => a.alike(b),
            (Doc::Text(a), Doc::Text(b)) => a == b,
            (Doc::Array(a, _), Doc::Array(b, _)) => {
                &&& a.len() == b.len()
                &&& forall|i: int| 0 <= i < a.len() ==> (#[trigger] a[i]).alike(b[i])
            },
            (Doc::Object(a, _), Doc::Object(b, _)) => {
                &&& forall|i: int|
                    0 <= i < a.len() ==> (#[trigger] a[i]).1.stands_in(a[i].0, b)
                &&& forall|j: int| 0 <= j < b.len() ==> named_in(a, (#[trigger] b[j]).0)
            },
            _ => false,
        }
    }

    /// Whether one of a list of fields has a name and holds the same values as this document.
    pub open spec fn stands_in(self, name: Seq<char>, fields: Seq<(Seq<char>, Doc)>) -> bool
        decreases self, 1int,
    {
        exists|j: int|
            0 <= j < fields.len() && (#[trigger] fields[j]).0 == name && self.alike(fields[j].1)
    }

    pub open spec fn at(self, name: Seq<char>) -> Option<Doc> {
        match self {
            Doc::Object(fields, _) => field(fields, name),
            _ => None,
        }
    }

    pub open spec fn text(self) -> Option<Seq<char>> {
        match self {
            Doc::Text(text) => Some(text),
            _ => None,
        }
    }

    pub open spec fn bool_of(self) -> Option<bool> {
        match self {
            Doc::Bool(b) => Some(b),
            _ => None,
        }
    }

    pub open spec fn int_of(self) -> Option<i64> {
        match self {
            Doc::Number(n) => n.int_of(),
            _ => None,
        }
    }

    pub open spec fn nat_of(self) -> Option<u64> {
        match self {
            Doc::Number(n) => n.nat_of(),
            _ => None,
        }
    }

    pub open spec fn items(self) -> Option<Seq<Doc>> {
        match self {
            Doc::Array(items, _) => Some(items),
            _ => None,
        }
    }

    /// The text a field holds, where it holds one.
    pub open spec fn text_at(self, name: Seq<char>) -> Option<Seq<char>> {
        match self.at(name) {
            Some(value) => value.text(),
            None => None,
        }
    }

    pub open spec fn int_at(self, name: Seq<char>) -> Option<i64> {
        match self.at(name) {
            Some(value) => value.int_of(),
            None => None,
        }
    }

    pub open spec fn nat_at(self, name: Seq<char>) -> Option<u64> {
        match self.at(name) {
            Some(value) => value.nat_of(),
            None => None,
        }
    }

    pub open spec fn bool_at(self, name: Seq<char>) -> Option<bool> {
        match self.at(name) {
            Some(value) => value.bool_of(),
            None => None,
        }
    }

    pub open spec fn items_at(self, name: Seq<char>) -> Option<Seq<Doc>> {
        match self.at(name) {
            Some(value) => value.items(),
            None => None,
        }
    }

    /// A component as the words it reads, whether it was written as a text or as an object.
    pub open spec fn words(self) -> Seq<char> {
        match self {
            Doc::Text(text) => text,
            Doc::Array(_, drawn) => drawn,
            Doc::Object(_, drawn) => drawn,
            _ => Seq::empty(),
        }
    }
}

/// A document that a program holds.
#[derive(Debug)]
pub enum Json {
    Null,
    Bool(bool),
    Number(Number),
    Text(String),
    /// A list, with the words the game would draw it as.
    Array(Vec<Json>, String),
    /// Fields in order, with the words the game would draw them as.
    Object(Vec<(String, Json)>, String),
}

impl Json {
    pub open spec fn doc(self) -> Doc
        decreases self,
    {
        match self {
            Json::Null => Doc::Null,
            Json::Bool(b) => Doc::Bool(b),
            Json::Number(n) => Doc::Number(n),
            Json::Text(text) => Doc::Text(text@),
            Json::Array(items, drawn) => Doc::Array(
                Seq::new(
                    items@.len(),
                    |i: int|
                        if 0 <= i < items@.len() {
                            items@[i].doc()
                        } else {
                            Doc::Null
                        },
                ),
                drawn@,
            ),
            Json::Object(fields, drawn) => Doc::Object(
                Seq::new(
                    fields@.len(),
                    |i: int|
                        if 0 <= i < fields@.len() {
                            (fields@[i].0@, fields@[i].1.doc())
                        } else {
                            (Seq::empty(), Doc::Null)
                        },
                ),
                drawn@,
            ),
        }
    }
}

impl View for Json {
    type V = Doc;

    open spec fn view(&self) -> Doc {
        self.doc()
    }
}

/// The documents of a list.
pub open spec fn docs(items: Seq<Json>) -> Seq<Doc> {
    Seq::new(items.len(), |i: int| items[i]@)
}

/// The documents of a list of fields.
pub open spec fn fields_of(fields: Seq<(String, Json)>) -> Seq<(Seq<char>, Doc)> {
    Seq::new(fields.len(), |i: int| (fields[i].0@, fields[i].1@))
}

/// A list's document holds its items' documents, an object's its fields'.
pub proof fn parts_of_a_document(j: Json)
    ensures
        j matches Json::Array(items, drawn) ==> j@ == Doc::Array(docs(items@), drawn@),
        j matches Json::Object(fields, drawn) ==> j@ == Doc::Object(fields_of(fields@), drawn@),
{
    match j {
        Json::Array(items, drawn) => {
            assert(j@->Array_0 =~= docs(items@));
        },
        Json::Object(fields, drawn) => {
            assert(j@->Object_0 =~= fields_of(fields@));
        },
        _ => {},
    }
}

/// A document holds the same values as itself.
pub proof fn a_document_is_alike_itself(doc: Doc)
    ensures
        doc.alike(doc),
    decreases doc,
{
    match doc {
        Doc::Array(items, _) => {
            assert forall|i: int| 0 <= i < items.len() implies (#[trigger] items[i]).alike(items[i]) by {
                a_document_is_alike_itself(items[i]);
            }
        },
        Doc::Object(fields, _) => {
            assert forall|i: int| 0 <= i < fields.len() implies (#[trigger] fields[i]).1.stands_in(
                fields[i].0,
                fields,
            ) by {
                a_document_is_alike_itself(fields[i].1);
            }
            assert forall|j: int| 0 <= j < fields.len() implies named_in(
                fields,
                (#[trigger] fields[j]).0,
            ) by {}
        },
        _ => {},
    }
}

fn has_field(fields: &Vec<(String, Json)>, name: &str) -> (r: bool)
    ensures
        r == named_in(fields_of(fields@), name@),
{
    let ghost all = fields_of(fields@);
    let mut i: usize = 0;
    while i < fields.len()
        invariant
            i <= fields@.len(),
            all == fields_of(fields@),
            forall|k: int| 0 <= k < i ==> (#[trigger] all[k]).0 != name@,
        decreases fields@.len() - i,
    {
        if same(fields[i].0.as_str(), name) {
            proof {
                assert(all[i as int].0 == name@);
            }
            return true;
        }
        i += 1;
    }
    false
}

/// What an object has under a name once one more field stands behind the others: what it had there,
/// and where it had nothing, the new value under the new name.
pub broadcast proof fn a_field_reads_back(doc: Doc, name: Seq<char>, value: Doc, other: Seq<char>)
    requires
        doc is Object,
    ensures
        #[trigger] doc.with(name, value).at(other) == match doc.at(other) {
            Some(found) => Some(found),
            None => if name == other {
                Some(value)
            } else {
                None
            },
        },
        doc.with(name, value) is Object,
{
    field_of_more(doc->Object_0, name, value, other);
}

proof fn field_of_more(
    fields: Seq<(Seq<char>, Doc)>,
    name: Seq<char>,
    value: Doc,
    other: Seq<char>,
)
    ensures
        field(fields.push((name, value)), other) == match field(fields, other) {
            Some(found) => Some(found),
            None => if name == other {
                Some(value)
            } else {
                None
            },
        },
    decreases fields.len(),
{
    let more = fields.push((name, value));
    if fields.len() == 0 {
        assert(more.drop_first() =~= Seq::empty());
        reveal_with_fuel(field, 2);
    } else {
        assert(more.drop_first() =~= fields.drop_first().push((name, value)));
        field_of_more(fields.drop_first(), name, value, other);
    }
}

/// What an object has under a name once a field was put in: the new value under its name, and what it
/// had under every other.
pub broadcast proof fn a_put_field_reads_back(doc: Doc, name: Seq<char>, value: Doc, other: Seq<char>)
    requires
        doc is Object,
    ensures
        #[trigger] doc.put(name, value).at(other) == if name == other {
            Some(value)
        } else {
            doc.at(other)
        },
{
    let fields = doc->Object_0;
    field_put(fields, name, value, other);
}

proof fn field_put(fields: Seq<(Seq<char>, Doc)>, name: Seq<char>, value: Doc, other: Seq<char>)
    ensures
        0 <= place(fields, name) <= fields.len(),
        field(
            if place(fields, name) < fields.len() {
                fields.update(place(fields, name), (name, value))
            } else {
                fields.push((name, value))
            },
            other,
        ) == if name == other {
            Some(value)
        } else {
            field(fields, other)
        },
    decreases fields.len(),
{
    if fields.len() == 0 {
        let more = fields.push((name, value));
        assert(more.drop_first() =~= Seq::empty());
        reveal_with_fuel(field, 2);
    } else if fields[0].0 == name {
        let now = fields.update(0, (name, value));
        assert(now.drop_first() =~= fields.drop_first());
    } else {
        let rest = fields.drop_first();
        field_put(rest, name, value, other);
        if place(fields, name) < fields.len() {
            let now = fields.update(place(fields, name), (name, value));
            assert(now.drop_first() =~= rest.update(place(rest, name), (name, value)));
        } else {
            let now = fields.push((name, value));
            assert(now.drop_first() =~= rest.push((name, value)));
        }
    }
}

/// An object with nothing in it has nothing under any name.
pub broadcast proof fn an_empty_object_has_nothing(name: Seq<char>)
    ensures
        #[trigger] Doc::object().at(name) is None,
{
}

impl Json {
    pub fn object() -> (r: Json)
        ensures
            r@ == Doc::object(),
    {
        let r = Json::Object(Vec::new(), String::new());
        proof {
            reveal_strlit("");
            parts_of_a_document(r);
            assert(r@->Object_0 =~= Seq::empty());
            assert(r@->Object_1 =~= Seq::empty());
        }
        r
    }

    /// The object with one more field behind the others.
    pub fn with(self, name: &str, value: Json) -> (r: Json)
        ensures
            r@ == self@.with(name@, value@),
    {
        let ghost before = self;
        match self {
            Json::Object(fields, drawn) => {
                let mut fields = fields;
                fields.push((name.to_owned(), value));
                let r = Json::Object(fields, drawn);
                proof {
                    parts_of_a_document(before);
                    parts_of_a_document(r);
                    assert(r@->Object_0 =~= before@->Object_0.push((name@, value@)));
                }
                r
            },
            other => other,
        }
    }

    /// The object with a field set.
    pub fn put(self, name: &str, value: Json) -> (r: Json)
        ensures
            r@ == self@.put(name@, value@),
    {
        let ghost before = self;
        match self {
            Json::Object(fields, drawn) => {
                let mut fields = fields;
                let ghost was = fields_of(fields@);
                let mut i: usize = 0;
                proof {
                    parts_of_a_document(before);
                    assert(was.skip(0) =~= was);
                }
                while i < fields.len() && !same(fields[i].0.as_str(), name)
                    invariant
                        i <= fields@.len(),
                        was == fields_of(fields@),
                        place(was, name@) == i + place(was.skip(i as int), name@),
                    decreases fields@.len() - i,
                {
                    proof {
                        assert(was.skip(i as int)[0] == was[i as int]);
                        assert(was.skip(i as int).drop_first() =~= was.skip(i as int + 1));
                    }
                    i += 1;
                }
                if i < fields.len() {
                    proof {
                        assert(was.skip(i as int)[0] == was[i as int]);
                    }
                    fields.set(i, (name.to_owned(), value));
                    proof {
                        assert(fields_of(fields@) =~= was.update(i as int, (name@, value@)));
                    }
                } else {
                    fields.push((name.to_owned(), value));
                    proof {
                        assert(fields_of(fields@) =~= was.push((name@, value@)));
                    }
                }
                let r = Json::Object(fields, drawn);
                proof {
                    parts_of_a_document(r);
                }
                r
            },
            other => other,
        }
    }

    pub fn with_some(self, name: &str, value: Option<Json>) -> (r: Json)
        ensures
            r@ == self@.with_some(
                name@,
                match value {
                    Some(value) => Some(value@),
                    None => None,
                },
            ),
    {
        match value {
            Some(value) => self.with(name, value),
            None => self,
        }
    }

    pub fn drawn(self, words: String) -> (r: Json)
        ensures
            r@ == self@.drawn(words@),
    {
        proof {
            parts_of_a_document(self);
        }
        match self {
            Json::Object(fields, _) => {
                let r = Json::Object(fields, words);
                proof {
                    parts_of_a_document(r);
                }
                r
            },
            other => other,
        }
    }

    pub fn text(text: &str) -> (r: Json)
        ensures
            r@ == Doc::Text(text@),
    {
        Json::Text(text.to_owned())
    }

    pub fn list(items: Vec<Json>) -> (r: Json)
        ensures
            r@ == Doc::list(docs(items@)),
    {
        let r = Json::Array(items, String::new());
        proof {
            reveal_strlit("");
            parts_of_a_document(r);
            assert(r@->Array_1 =~= Seq::empty());
        }
        r
    }

    pub fn number(n: i64) -> (r: Json)
        ensures
            r@ == Doc::number(n as int),
    {
        Json::Number(Number::Whole(n))
    }

    pub fn count(n: u64) -> (r: Json)
        ensures
            r@ == Doc::number(n as int),
    {
        if n <= 0x7fff_ffff_ffff_ffff {
            Json::Number(Number::Whole(n as i64))
        } else {
            Json::Number(Number::Large(n))
        }
    }

    /// What a field holds, where this is an object that has it.
    pub fn get(&self, name: &str) -> (r: Option<&Json>)
        ensures
            match r {
                Some(value) => self@.at(name@) == Some(value@),
                None => self@.at(name@) is None,
            },
            r matches Some(value) ==> decreases_to!(*self => *value),
    {
        match self {
            Json::Object(fields, drawn) => {
                let mut i: usize = 0;
                proof {
                    parts_of_a_document(*self);
                    assert(fields_of(fields@).skip(0) =~= fields_of(fields@));
                }
                while i < fields.len()
                    invariant
                        i <= fields@.len(),
                        *self == Json::Object(*fields, *drawn),
                        self@ == Doc::Object(fields_of(fields@), drawn@),
                        self@.at(name@) == field(fields_of(fields@).skip(i as int), name@),
                    decreases fields@.len() - i,
                {
                    if same(fields[i].0.as_str(), name) {
                        return Some(&fields[i].1);
                    }
                    proof {
                        assert(fields_of(fields@).skip(i as int).drop_first() =~= fields_of(
                            fields@,
                        ).skip(i as int + 1));
                    }
                    i += 1;
                }
                None
            },
            _ => None,
        }
    }

    pub fn as_str(&self) -> (r: Option<&str>)
        ensures
            match r {
                Some(text) => self@.text() == Some(text@),
                None => self@.text() is None,
            },
    {
        match self {
            Json::Text(text) => Some(text.as_str()),
            _ => None,
        }
    }

    pub fn as_bool(&self) -> (r: Option<bool>)
        ensures
            r == self@.bool_of(),
    {
        match self {
            Json::Bool(b) => Some(*b),
            _ => None,
        }
    }

    pub fn as_i64(&self) -> (r: Option<i64>)
        ensures
            r == self@.int_of(),
    {
        match self {
            Json::Number(n) => n.as_i64(),
            _ => None,
        }
    }

    pub fn as_u64(&self) -> (r: Option<u64>)
        ensures
            r == self@.nat_of(),
    {
        match self {
            Json::Number(n) => n.as_u64(),
            _ => None,
        }
    }

    pub fn as_array(&self) -> (r: Option<&Vec<Json>>)
        ensures
            match r {
                Some(items) => self@.items() == Some(docs(items@)),
                None => self@.items() is None,
            },
            r matches Some(items) ==> forall|i: int|
                0 <= i < items@.len() ==> decreases_to!(*self => #[trigger] items@[i]),
    {
        proof {
            parts_of_a_document(*self);
        }
        match self {
            Json::Array(items, _) => Some(items),
            _ => None,
        }
    }

    /// The text a field holds, where it holds one.
    pub fn text_at(&self, name: &str) -> (r: Option<&str>)
        ensures
            match r {
                Some(text) => self@.text_at(name@) == Some(text@),
                None => self@.text_at(name@) is None,
            },
    {
        match self.get(name) {
            Some(value) => value.as_str(),
            None => None,
        }
    }

    pub fn int_at(&self, name: &str) -> (r: Option<i64>)
        ensures
            r == self@.int_at(name@),
    {
        match self.get(name) {
            Some(value) => value.as_i64(),
            None => None,
        }
    }

    pub fn nat_at(&self, name: &str) -> (r: Option<u64>)
        ensures
            r == self@.nat_at(name@),
    {
        match self.get(name) {
            Some(value) => value.as_u64(),
            None => None,
        }
    }

    pub fn bool_at(&self, name: &str) -> (r: Option<bool>)
        ensures
            r == self@.bool_at(name@),
    {
        match self.get(name) {
            Some(value) => value.as_bool(),
            None => None,
        }
    }

    pub fn items_at(&self, name: &str) -> (r: Option<&Vec<Json>>)
        ensures
            match r {
                Some(items) => self@.items_at(name@) == Some(docs(items@)),
                None => self@.items_at(name@) is None,
            },
            r matches Some(items) ==> forall|i: int|
                0 <= i < items@.len() ==> decreases_to!(*self => #[trigger] items@[i]),
    {
        match self.get(name) {
            Some(value) => value.as_array(),
            None => None,
        }
    }

    /// A component as the words it reads, whether it was written as a text or as an object.
    pub fn words(&self) -> (r: String)
        ensures
            r@ == self@.words(),
    {
        proof {
            reveal_strlit("");
        }
        match self {
            Json::Text(text) => text.clone(),
            Json::Array(_, drawn) => drawn.clone(),
            Json::Object(_, drawn) => drawn.clone(),
            _ => {
                let none = String::new();
                proof {
                    assert(none@ =~= Seq::empty());
                }
                none
            },
        }
    }

    /// Whether two documents hold the same values.
    pub fn equals(&self, other: &Json) -> (r: bool)
        ensures
            r == self@.alike(other@),
        decreases *self,
    {
        proof {
            parts_of_a_document(*self);
            parts_of_a_document(*other);
        }
        match (self, other) {
            (Json::Null, Json::Null) => true,
            (Json::Bool(a), Json::Bool(b)) => *a == *b,
            (Json::Number(a), Json::Number(b)) => a.equals(b),
            (Json::Text(a), Json::Text(b)) => same(a.as_str(), b.as_str()),
            (Json::Array(a, drawn), Json::Array(b, _)) => {
                if a.len() != b.len() {
                    proof {
                        assert(docs(a@).len() == a@.len());
                        assert(docs(b@).len() == b@.len());
                    }
                    return false;
                }
                let ghost (all, others) = (docs(a@), docs(b@));
                let mut i: usize = 0;
                while i < a.len()
                    invariant
                        i <= a@.len() == b@.len(),
                        *self == Json::Array(*a, *drawn),
                        all == docs(a@),
                        others == docs(b@),
                        forall|k: int| 0 <= k < i ==> (#[trigger] all[k]).alike(others[k]),
                        self@ matches Doc::Array(items, _) && items == all,
                        other@ matches Doc::Array(items, _) && items == others,
                    decreases a@.len() - i,
                {
                    proof {
                        assert(decreases_to!(*self => (*self)->Array_0));
                        assert(decreases_to!(*a => a[i as int]));
                    }
                    if !a[i].equals(&b[i]) {
                        proof {
                            assert(!all[i as int].alike(others[i as int]));
                        }
                        return false;
                    }
                    i += 1;
                }
                true
            },
            (Json::Object(a, drawn), Json::Object(b, _)) => {
                let ghost (all, others) = (fields_of(a@), fields_of(b@));
                let mut i: usize = 0;
                while i < a.len()
                    invariant
                        i <= a@.len(),
                        *self == Json::Object(*a, *drawn),
                        all == fields_of(a@),
                        others == fields_of(b@),
                        forall|k: int|
                            0 <= k < i ==> (#[trigger] all[k]).1.stands_in(all[k].0, others),
                        self@ matches Doc::Object(fields, _) && fields == all,
                        other@ matches Doc::Object(fields, _) && fields == others,
                    decreases a@.len() - i,
                {
                    let mut found: bool = false;
                    let mut j: usize = 0;
                    while j < b.len() && !found
                        invariant
                            i < a@.len(),
                            j <= b@.len(),
                            *self == Json::Object(*a, *drawn),
                            all == fields_of(a@),
                            others == fields_of(b@),
                            found ==> all[i as int].1.stands_in(all[i as int].0, others),
                            !found ==> forall|k: int|
                                #![trigger others[k]]
                                0 <= k < j ==> !(all[i as int].0 == others[k].0
                                    && all[i as int].1.alike(others[k].1)),
                        decreases b@.len() - j,
                    {
                        proof {
                            assert(decreases_to!(*self => (*self)->Object_0));
                            assert(decreases_to!(*a => a[i as int]));
                            assert(decreases_to!(a[i as int] => a[i as int].1));
                            assert(others[j as int] == (b@[j as int].0@, b@[j as int].1@));
                        }
                        if same(a[i].0.as_str(), b[j].0.as_str()) && a[i].1.equals(&b[j].1) {
                            proof {
                                assert(others[j as int].0 == all[i as int].0);
                            }
                            found = true;
                        }
                        j += 1;
                    }
                    if !found {
                        proof {
                            assert(!all[i as int].1.stands_in(all[i as int].0, others));
                        }
                        return false;
                    }
                    i += 1;
                }
                let mut j: usize = 0;
                while j < b.len()
                    invariant
                        j <= b@.len(),
                        all == fields_of(a@),
                        others == fields_of(b@),
                        forall|k: int| 0 <= k < j ==> named_in(all, (#[trigger] others[k]).0),
                        self@ matches Doc::Object(fields, _) && fields == all,
                        other@ matches Doc::Object(fields, _) && fields == others,
                    decreases b@.len() - j,
                {
                    if !has_field(a, b[j].0.as_str()) {
                        proof {
                            assert(!named_in(all, others[j as int].0));
                        }
                        return false;
                    }
                    j += 1;
                }
                true
            },
            _ => false,
        }
    }

    /// Another of the same document.
    pub fn copy(&self) -> (r: Json)
        ensures
            r@ == self@,
        decreases *self,
    {
        match self {
            Json::Null => Json::Null,
            Json::Bool(b) => Json::Bool(*b),
            Json::Number(n) => Json::Number(*n),
            Json::Text(text) => Json::Text(text.clone()),
            Json::Array(items, drawn) => {
                let mut out: Vec<Json> = Vec::new();
                let mut i: usize = 0;
                while i < items.len()
                    invariant
                        i <= items@.len(),
                        out@.len() == i,
                        *self == Json::Array(*items, *drawn),
                        forall|k: int| 0 <= k < i ==> (#[trigger] out@[k])@ == items@[k]@,
                    decreases items@.len() - i,
                {
                    proof {
                        assert(decreases_to!(*self => (*self)->Array_0));
                        assert(decreases_to!(*items => items[i as int]));
                    }
                    out.push(items[i].copy());
                    i += 1;
                }
                let r = Json::Array(out, drawn.clone());
                proof {
                    parts_of_a_document(*self);
                    parts_of_a_document(r);
                    assert(docs(out@) =~= docs(items@));
                }
                r
            },
            Json::Object(fields, drawn) => {
                let mut out: Vec<(String, Json)> = Vec::new();
                let mut i: usize = 0;
                while i < fields.len()
                    invariant
                        i <= fields@.len(),
                        out@.len() == i,
                        *self == Json::Object(*fields, *drawn),
                        forall|k: int|
                            0 <= k < i ==> (#[trigger] out@[k]).0@ == fields@[k].0@ && out@[k].1@
                                == fields@[k].1@,
                    decreases fields@.len() - i,
                {
                    proof {
                        assert(decreases_to!(*self => (*self)->Object_0));
                        assert(decreases_to!(*fields => fields[i as int]));
                        assert(decreases_to!(fields[i as int] => fields[i as int].1));
                    }
                    out.push((fields[i].0.clone(), fields[i].1.copy()));
                    i += 1;
                }
                let r = Json::Object(out, drawn.clone());
                proof {
                    parts_of_a_document(*self);
                    parts_of_a_document(r);
                    assert(fields_of(out@) =~= fields_of(fields@));
                }
                r
            },
        }
    }
}

/// A number is a number of the document, and reads as the integer or the natural number it is.
pub proof fn a_number_is_read_as_what_it_is(n: i64, large: u64, fraction: Fraction)
    ensures
        Doc::number(n as int) == Doc::Number(Number::Whole(n)),
        large > i64::MAX ==> Doc::number(large as int) == Doc::Number(Number::Large(large)),
        Number::Whole(n).int_of() == Some(n),
        n >= 0 ==> Number::Whole(n).nat_of() == Some(n as u64),
        n < 0 ==> Number::Whole(n).nat_of() is None,
        Number::Large(large).int_of() is None && Number::Large(large).nat_of() == Some(large),
        Number::Fraction(fraction).int_of() is None && Number::Fraction(fraction).nat_of() is None,
        Number::Fraction(fraction).floor_of() == fraction.floor,
        Number::Fraction(fraction).cut_of() == fraction.cut,
        i32::MIN <= n <= i32::MAX ==> Number::Whole(n).floor_of() == n && Number::Whole(n).cut_of() == n,
        n > i32::MAX ==> Number::Whole(n).floor_of() == i32::MAX,
        n < i32::MIN ==> Number::Whole(n).floor_of() == i32::MIN,
        Number::Whole(n).zero() <==> n == 0,
{
}

/// What a document reads as is its own: a text, the words a list or an object is drawn as, and nothing
/// for the rest.
pub proof fn a_document_reads_its_words(text: Seq<char>, items: Seq<Doc>, fields: Seq<(Seq<char>, Doc)>, b: bool)
    ensures
        Doc::Text(text).words() == text,
        Doc::Array(items, text).words() == text,
        Doc::Object(fields, text).words() == text,
        Doc::Null.words().len() == 0 && Doc::Bool(b).words().len() == 0,
        Doc::Text(text).text() == Some(text) && Doc::Bool(b).bool_of() == Some(b) && Doc::Array(
            items,
            text,
        ).items() == Some(items),
        Doc::Text(text).bool_of() is None && Doc::Bool(b).text() is None && Doc::Null.text() is None,
{
}

} // verus!
