//! The binary tags a dialog's answer is sent as.
use vstd::prelude::*;

use crate::json::{parts_of_a_document, Doc, Fraction, Json, Number};

verus! {

/// A tag as mathematics has it.
#[verifier::ext_equal]
pub enum TagView {
    Byte(i8),
    Int(i32),
    Long(i64),
    /// A number that is no integer of 64 signed bits, as a double.
    Double(Number),
    /// A single, by its bits.
    Float(u32),
    Text(Seq<char>),
    List(Seq<Seq<(Seq<char>, TagView)>>),
    Compound(Seq<(Seq<char>, TagView)>),
}

pub enum Tag {
    Byte(i8),
    Int(i32),
    Long(i64),
    /// A number that is no integer of 64 signed bits, as a double.
    Double(Number),
    /// A single, by its bits.
    Float(u32),
    Text(String),
    /// A list of compounds.
    List(Vec<Vec<(String, Tag)>>),
    Compound(Vec<(String, Tag)>),
}

impl Tag {
    pub open spec fn tag(self) -> TagView
        decreases self,
    {
        match self {
            Tag::Byte(n) => TagView::Byte(n),
            Tag::Int(n) => TagView::Int(n),
            Tag::Long(n) => TagView::Long(n),
            Tag::Double(n) => TagView::Double(n),
            Tag::Float(n) => TagView::Float(n),
            Tag::Text(text) => TagView::Text(text@),
            Tag::List(items) => TagView::List(
                Seq::new(
                    items@.len(),
                    |i: int|
                        if 0 <= i < items@.len() {
                            Seq::new(
                                items@[i]@.len(),
                                |j: int|
                                    if 0 <= j < items@[i]@.len() {
                                        (items@[i]@[j].0@, items@[i]@[j].1.tag())
                                    } else {
                                        (Seq::empty(), TagView::Byte(0))
                                    },
                            )
                        } else {
                            Seq::empty()
                        },
                ),
            ),
            Tag::Compound(fields) => TagView::Compound(
                Seq::new(
                    fields@.len(),
                    |i: int|
                        if 0 <= i < fields@.len() {
                            (fields@[i].0@, fields@[i].1.tag())
                        } else {
                            (Seq::empty(), TagView::Byte(0))
                        },
                ),
            ),
        }
    }
}

impl View for Tag {
    type V = TagView;

    open spec fn view(&self) -> TagView {
        self.tag()
    }
}

/// The tags of a list of fields.
pub open spec fn tags(fields: Seq<(String, Tag)>) -> Seq<(Seq<char>, TagView)> {
    Seq::new(fields.len(), |i: int| (fields[i].0@, fields[i].1@))
}

/// A compound's tag holds its fields' tags, a list's its items'.
pub proof fn parts_of_a_tag(t: Tag)
    ensures
        t matches Tag::Compound(fields) ==> t@ == TagView::Compound(tags(fields@)),
        t matches Tag::List(items) ==> t@ == TagView::List(
            Seq::new(items@.len(), |i: int| tags(items@[i]@)),
        ),
{
    match t {
        Tag::Compound(fields) => {
            assert(t@->Compound_0 =~= tags(fields@));
        },
        Tag::List(items) => {
            let want = Seq::new(items@.len(), |i: int| tags(items@[i]@));
            assert forall|i: int| 0 <= i < items@.len() implies t@->List_0[i] == want[i] by {
                assert(t@->List_0[i] =~= tags(items@[i]@));
            }
            assert(t@->List_0 =~= want);
        },
        _ => {},
    }
}

/// A tag as an item of a list of compounds: itself, or alone under an empty name.
pub open spec fn as_item(tag: TagView) -> Seq<(Seq<char>, TagView)> {
    match tag {
        TagView::Compound(fields) => fields,
        other => seq![(Seq::empty(), other)],
    }
}

/// A definition's own tag, back from the document it was read into. Whole numbers go back as ints
/// and the rest as doubles: the document has lost which they were, and a payload a server reads as a
/// number reads either.
pub open spec fn tag_of(value: Doc) -> TagView
    decreases value,
{
    match value {
        Doc::Bool(flag) => TagView::Byte(
            if flag {
                1
            } else {
                0
            },
        ),
        Doc::Number(number) => match number {
            Number::Whole(n) => if i32::MIN <= n <= i32::MAX {
                TagView::Int(n as i32)
            } else {
                TagView::Long(n)
            },
            other => TagView::Double(other),
        },
        Doc::Text(text) => TagView::Text(text),
        Doc::Array(items, _) => TagView::List(
            Seq::new(
                items.len(),
                |i: int|
                    if 0 <= i < items.len() {
                        as_item(tag_of(items[i]))
                    } else {
                        Seq::empty()
                    },
            ),
        ),
        Doc::Object(fields, _) => TagView::Compound(
            Seq::new(
                fields.len(),
                |i: int|
                    if 0 <= i < fields.len() {
                        (fields[i].0, tag_of(fields[i].1))
                    } else {
                        (Seq::empty(), TagView::Byte(0))
                    },
            ),
        ),
        Doc::Null => TagView::Compound(Seq::empty()),
    }
}

pub fn tag(value: &Json) -> (r: Tag)
    ensures
        r@ == tag_of(value@),
    decreases *value,
{
    match value {
        Json::Bool(flag) => Tag::Byte(
            if *flag {
                1
            } else {
                0
            },
        ),
        Json::Number(number) => match number {
            Number::Whole(n) => if i32::MIN as i64 <= *n && *n <= i32::MAX as i64 {
                Tag::Int(*n as i32)
            } else {
                Tag::Long(*n)
            },
            other => Tag::Double(*other),
        },
        Json::Text(text) => Tag::Text(text.clone()),
        Json::Array(items, drawn) => {
            let mut out: Vec<Vec<(String, Tag)>> = Vec::new();
            let mut i: usize = 0;
            while i < items.len()
                invariant
                    i <= items@.len(),
                    *value == Json::Array(*items, *drawn),
                    out@.len() == i,
                    forall|k: int|
                        0 <= k < i ==> tags((#[trigger] out@[k])@) == as_item(
                            tag_of(items@[k]@),
                        ),
                decreases items@.len() - i,
            {
                proof {
                    assert(decreases_to!(*value => (*value)->Array_0));
                    assert(decreases_to!(*items => items[i as int]));
                }
                let one = tag(&items[i]);
                proof {
                    parts_of_a_tag(one);
                }
                let fields = match one {
                    Tag::Compound(fields) => fields,
                    other => {
                        let mut alone: Vec<(String, Tag)> = Vec::new();
                        alone.push(("".to_owned(), other));
                        proof {
                            reveal_strlit("");
                            assert(""@ =~= Seq::empty());
                            assert(tags(alone@) =~= as_item(other@));
                        }
                        alone
                    },
                };
                out.push(fields);
                i += 1;
            }
            let r = Tag::List(out);
            proof {
                parts_of_a_document(*value);
                parts_of_a_tag(r);
                assert(r@->List_0 =~= tag_of(value@)->List_0);
            }
            r
        },
        Json::Object(fields, drawn) => {
            let mut out: Vec<(String, Tag)> = Vec::new();
            let mut i: usize = 0;
            while i < fields.len()
                invariant
                    i <= fields@.len(),
                    *value == Json::Object(*fields, *drawn),
                    out@.len() == i,
                    forall|k: int|
                        0 <= k < i ==> (#[trigger] out@[k]).0@ == fields@[k].0@ && out@[k].1@
                            == tag_of(fields@[k].1@),
                decreases fields@.len() - i,
            {
                proof {
                    assert(decreases_to!(*value => (*value)->Object_0));
                    assert(decreases_to!(*fields => fields[i as int]));
                    assert(decreases_to!(fields[i as int] => fields[i as int].1));
                }
                out.push((fields[i].0.clone(), tag(&fields[i].1)));
                i += 1;
            }
            let r = Tag::Compound(out);
            proof {
                parts_of_a_document(*value);
                parts_of_a_tag(r);
                assert(r@->Compound_0 =~= tag_of(value@)->Compound_0);
            }
            r
        },
        Json::Null => {
            let r = Tag::Compound(Vec::new());
            proof {
                parts_of_a_tag(r);
                assert(r@->Compound_0 =~= Seq::empty());
            }
            r
        },
    }
}

/// A document goes back to the tag it was read from: a flag to a byte, a whole number to an int or a
/// long, any other to a double, and a text, a list and an object to theirs.
pub proof fn a_document_goes_back_to_its_tag(flag: bool, n: i64, text: Seq<char>, fraction: Fraction, large: u64)
    ensures
        tag_of(Doc::Bool(true)) == TagView::Byte(1),
        tag_of(Doc::Bool(false)) == TagView::Byte(0),
        i32::MIN <= n <= i32::MAX ==> tag_of(Doc::Number(Number::Whole(n))) == TagView::Int(n as i32),
        n < i32::MIN || n > i32::MAX ==> tag_of(Doc::Number(Number::Whole(n))) == TagView::Long(n),
        tag_of(Doc::Number(Number::Fraction(fraction))) == TagView::Double(Number::Fraction(fraction)),
        tag_of(Doc::Text(text)) == TagView::Text(text),
        tag_of(Doc::Null) == TagView::Compound(Seq::empty()),
{
}

/// A list has a compound for each of its items, one that is none held under no name; an object has a
/// tag under each of its names.
pub proof fn a_list_goes_back_item_by_item(
    items: Seq<Doc>,
    fields: Seq<(Seq<char>, Doc)>,
    drawn: Seq<char>,
    i: int,
)
    ensures
        0 <= i < items.len() ==> (tag_of(Doc::Array(items, drawn)) matches TagView::List(list)
            && list.len() == items.len() && list[i] == match tag_of(items[i]) {
            TagView::Compound(inner) => inner,
            other => seq![(Seq::<char>::empty(), other)],
        }),
        0 <= i < fields.len() ==> (tag_of(Doc::Object(fields, drawn)) matches TagView::Compound(list)
            && list.len() == fields.len() && list[i].0 == fields[i].0 && list[i].1 == tag_of(
            fields[i].1,
        )),
{
}

} // verus!
