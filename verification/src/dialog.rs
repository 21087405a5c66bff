//! The dialog the server has open, and what a vanilla client keeps of it while it is up.
//!
//! A vanilla client builds a screen out of a dialog, and from then on the screen's controls hold
//! the inputs' values and its buttons know what to send. There is no screen here, so this holds
//! both halves: the definition as the server sent it, and what each input holds, starting from the
//! values the definition gives. What a button sends is built from these the way the client builds
//! it from its controls, because a server reads a template's `$(key)` and cannot tell the two apart.
use vstd::prelude::*;

use crate::json::{docs, parts_of_a_document, Doc, Json, Number};
use crate::table::{distinct, map_of, Table};
use crate::tag::{parts_of_a_tag, tag, tag_of, tags, Tag, TagView};
use crate::words::{
    bare, begins, cat3, ends, ends_with, letters, matches_at, same, stands_at, unprefixed,
};

verus! {

/// The number a slider stands on: the single it is, the same number in a document, and the way the
/// client writes it. Which of the range's numbers that is, is worked out where the slider is moved.
pub struct Slider {
    pub single: u32,
    pub number: Number,
    pub text: String,
}

pub enum Held {
    Text(String),
    Checkbox(bool),
    Choice(String),
    Slider(Slider),
}

/// What an input holds, as mathematics has it.
pub enum HeldView {
    Text(Seq<char>),
    Checkbox(bool),
    Choice(Seq<char>),
    Slider(u32, Number, Seq<char>),
}

impl View for Held {
    type V = HeldView;

    open spec fn view(&self) -> HeldView {
        match self {
            Held::Text(text) => HeldView::Text(text@),
            Held::Checkbox(ticked) => HeldView::Checkbox(*ticked),
            Held::Choice(id) => HeldView::Choice(id@),
            Held::Slider(at) => HeldView::Slider(at.single, at.number, at.text@),
        }
    }
}

pub struct Entry {
    pub id: String,
    pub display: String,
}

/// A slider's range, each end where it is given.
#[derive(Clone, Copy)]
pub struct Range {
    pub start: Number,
    pub end: Number,
    pub initial: Option<Number>,
    pub step: Option<Number>,
}

pub enum Kind {
    Text { max_length: u64, multiline: bool },
    Checkbox { on_true: String, on_false: String },
    Choice { entries: Vec<Entry> },
    Slider(Range),
    Unknown,
}

pub enum KindView {
    Text(u64, bool),
    Checkbox(Seq<char>, Seq<char>),
    /// Each entry's id and the words it shows.
    Choice(Seq<(Seq<char>, Seq<char>)>),
    Slider(Range),
    Unknown,
}

/// The ids and the words of a list of entries.
pub open spec fn shown(entries: Seq<Entry>) -> Seq<(Seq<char>, Seq<char>)> {
    Seq::new(entries.len(), |i: int| (entries[i].id@, entries[i].display@))
}

impl View for Kind {
    type V = KindView;

    open spec fn view(&self) -> KindView {
        match self {
            Kind::Text { max_length, multiline } => KindView::Text(*max_length, *multiline),
            Kind::Checkbox { on_true, on_false } => KindView::Checkbox(on_true@, on_false@),
            Kind::Choice { entries } => KindView::Choice(shown(entries@)),
            Kind::Slider(range) => KindView::Slider(*range),
            Kind::Unknown => KindView::Unknown,
        }
    }
}

pub struct Input {
    pub key: String,
    pub label: Json,
    pub kind: Kind,
}

pub struct InputView {
    pub key: Seq<char>,
    pub label: Doc,
    pub kind: KindView,
}

impl View for Input {
    type V = InputView;

    open spec fn view(&self) -> InputView {
        InputView { key: self.key@, label: self.label@, kind: self.kind@ }
    }
}

pub struct Button {
    pub label: String,
    pub action: Option<Json>,
}

impl View for Button {
    type V = (Seq<char>, Option<Doc>);

    open spec fn view(&self) -> (Seq<char>, Option<Doc>) {
        (
            self.label@,
            match self.action {
                Some(action) => Some(action@),
                None => None,
            },
        )
    }
}

/// What a button's action comes to, once its inputs are read into it.
pub enum Action {
    Command(String),
    Custom { id: String, payload: Option<Tag> },
    /// Something the client does on its own screen -- a link, the clipboard, another dialog -- and
    /// sends the server nothing for.
    Local,
}

pub enum ActionView {
    Command(Seq<char>),
    Custom(Seq<char>, Option<TagView>),
    Local,
}

impl View for Action {
    type V = ActionView;

    open spec fn view(&self) -> ActionView {
        match self {
            Action::Command(command) => ActionView::Command(command@),
            Action::Custom { id, payload } => ActionView::Custom(
                id@,
                match payload {
                    Some(payload) => Some(payload@),
                    None => None,
                },
            ),
            Action::Local => ActionView::Local,
        }
    }
}

/// A text that may be missing, and is then empty.
pub open spec fn or_empty(text: Option<Seq<char>>) -> Seq<char> {
    match text {
        Some(text) => text,
        None => Seq::empty(),
    }
}

fn owned(text: Option<&str>) -> (r: String)
    ensures
        r@ == or_empty(
            match text {
                Some(text) => Some(text@),
                None => None,
            },
        ),
{
    match text {
        Some(text) => text.to_owned(),
        None => {
            proof {
                reveal_strlit("");
                assert(""@ =~= Seq::empty());
            }
            "".to_owned()
        },
    }
}

/// The kind a node of a definition says it is.
pub open spec fn kind_of(node: Doc) -> Seq<char> {
    bare(or_empty(node.text_at("type"@)))
}

fn kind(node: &Json) -> (r: String)
    ensures
        r@ == kind_of(node@),
{
    unprefixed(owned(node.text_at("type")).as_str())
}

/// The items of a node that is a list, or is one of a list of one written bare.
pub open spec fn each_of(node: Option<Doc>) -> Seq<Doc> {
    match node {
        None => Seq::empty(),
        Some(Doc::Null) => Seq::empty(),
        Some(Doc::Array(items, _)) => items,
        Some(one) => seq![one],
    }
}

/// The documents that a list of references leads to.
pub open spec fn led(items: Seq<&Json>) -> Seq<Doc> {
    Seq::new(items.len(), |i: int| items[i]@)
}

fn each<'a>(node: Option<&'a Json>) -> (r: Vec<&'a Json>)
    ensures
        led(r@) == each_of(
            match node {
                Some(node) => Some(node@),
                None => None,
            },
        ),
{
    let mut out: Vec<&'a Json> = Vec::new();
    match node {
        None => {
            proof {
                assert(led(out@) =~= Seq::empty());
            }
        },
        Some(node) => {
            proof {
                parts_of_a_document(*node);
            }
            match node {
                Json::Null => {
                    proof {
                        assert(led(out@) =~= Seq::empty());
                    }
                },
                Json::Array(items, _) => {
                    let mut i: usize = 0;
                    while i < items.len()
                        invariant
                            i <= items@.len(),
                            out@.len() == i,
                            forall|k: int| 0 <= k < i ==> *(#[trigger] out@[k]) == items@[k],
                        decreases items@.len() - i,
                    {
                        out.push(&items[i]);
                        i += 1;
                    }
                    proof {
                        assert(led(out@) =~= docs(items@));
                    }
                },
                one => {
                    out.push(one);
                    proof {
                        assert(led(out@) =~= seq![one@]);
                    }
                },
            }
        },
    }
    out
}

/// Whether a value counts as yes: true, or a number that is not nothing.
pub open spec fn truthy_of(value: Option<Doc>) -> bool {
    match value {
        Some(Doc::Bool(flag)) => flag,
        Some(Doc::Number(number)) => !number.zero(),
        _ => false,
    }
}

fn truthy(value: Option<&Json>) -> (r: bool)
    ensures
        r == truthy_of(
            match value {
                Some(value) => Some(value@),
                None => None,
            },
        ),
{
    match value {
        Some(Json::Bool(flag)) => *flag,
        Some(Json::Number(number)) => !number.is_zero(),
        _ => false,
    }
}

/// An option of a choice: its id, the words it shows, and whether the choice starts on it.
pub open spec fn entry_of(option: Doc) -> (Seq<char>, Seq<char>, bool) {
    match option {
        Doc::Text(id) => (id, id, false),
        _ => {
            let id = or_empty(option.text_at("id"@));
            (
                id,
                match option.at("display"@) {
                    Some(display) => display.words(),
                    None => id,
                },
                truthy_of(option.at("initial"@)),
            )
        },
    }
}

fn entry(option: &Json) -> (r: (Entry, bool))
    ensures
        (r.0.id@, r.0.display@, r.1) == entry_of(option@),
{
    match option {
        Json::Text(id) => (Entry { id: id.clone(), display: id.clone() }, false),
        _ => {
            let id = owned(option.text_at("id"));
            let display = match option.get("display") {
                Some(display) => display.words(),
                None => id.clone(),
            };
            (Entry { id, display }, truthy(option.get("initial")))
        },
    }
}

/// The options of a choice.
pub open spec fn entries_of(input: Doc) -> Seq<(Seq<char>, Seq<char>, bool)> {
    let options = each_of(input.at("options"@));
    Seq::new(options.len(), |i: int| entry_of(options[i]))
}

/// The options of a choice as the words and the ids they show.
pub open spec fn choices_of(input: Doc) -> Seq<(Seq<char>, Seq<char>)> {
    Seq::new(entries_of(input).len(), |i: int| (entries_of(input)[i].0, entries_of(input)[i].1))
}

fn entries(input: &Json) -> (r: Vec<(Entry, bool)>)
    ensures
        r@.len() == entries_of(input@).len(),
        forall|i: int|
            0 <= i < r@.len() ==> ((#[trigger] r@[i]).0.id@, r@[i].0.display@, r@[i].1)
                == entries_of(input@)[i],
{
    let options = each(input.get("options"));
    let mut out: Vec<(Entry, bool)> = Vec::new();
    let mut i: usize = 0;
    let ghost want = entries_of(input@);
    proof {
        assert(led(options@).len() == options@.len());
    }
    while i < options.len()
        invariant
            i <= options@.len(),
            options@.len() == want.len(),
            out@.len() == i,
            want == entries_of(input@),
            led(options@) == each_of(input@.at("options"@)),
            forall|k: int|
                0 <= k < i ==> ((#[trigger] out@[k]).0.id@, out@[k].0.display@, out@[k].1)
                    == want[k],
        decreases options@.len() - i,
    {
        proof {
            assert(led(options@)[i as int] == options@[i as int]@);
        }
        out.push(entry(options[i]));
        i += 1;
    }
    out
}

/// A number a field holds, where it holds one.
pub open spec fn number_at(node: Doc, name: Seq<char>) -> Option<Number> {
    match node.at(name) {
        Some(Doc::Number(number)) => Some(number),
        _ => None,
    }
}

fn number(node: &Json, name: &str) -> (r: Option<Number>)
    ensures
        r == number_at(node@, name@),
{
    match node.get(name) {
        Some(Json::Number(number)) => Some(*number),
        _ => None,
    }
}

pub open spec fn or_zero(number: Option<Number>) -> Number {
    match number {
        Some(number) => number,
        None => Number::Whole(0),
    }
}

/// An input as the definition gives it.
pub open spec fn input_of(node: Doc) -> InputView {
    InputView {
        key: or_empty(node.text_at("key"@)),
        label: match node.at("label"@) {
            Some(label) => label,
            None => Doc::Null,
        },
        kind: if kind_of(node) == "text"@ {
            KindView::Text(
                match node.nat_at("max_length"@) {
                    Some(n) => n,
                    None => 32,
                },
                node.at("multiline"@) is Some,
            )
        } else if kind_of(node) == "boolean"@ {
            KindView::Checkbox(
                match node.text_at("on_true"@) {
                    Some(text) => text,
                    None => "true"@,
                },
                match node.text_at("on_false"@) {
                    Some(text) => text,
                    None => "false"@,
                },
            )
        } else if kind_of(node) == "single_option"@ {
            KindView::Choice(choices_of(node))
        } else if kind_of(node) == "number_range"@ {
            KindView::Slider(
                Range {
                    start: or_zero(number_at(node, "start"@)),
                    end: or_zero(number_at(node, "end"@)),
                    initial: number_at(node, "initial"@),
                    step: number_at(node, "step"@),
                },
            )
        } else {
            KindView::Unknown
        },
    }
}

fn input(node: &Json) -> (r: Input)
    ensures
        r@ == input_of(node@),
{
    let key = owned(node.text_at("key"));
    let label = match node.get("label") {
        Some(label) => label.copy(),
        None => Json::Null,
    };
    let name = kind(node);
    let kind = if same(name.as_str(), "text") {
        Kind::Text {
            max_length: match node.nat_at("max_length") {
                Some(n) => n,
                None => 32,
            },
            multiline: node.get("multiline").is_some(),
        }
    } else if same(name.as_str(), "boolean") {
        Kind::Checkbox {
            on_true: match node.text_at("on_true") {
                Some(text) => text.to_owned(),
                None => "true".to_owned(),
            },
            on_false: match node.text_at("on_false") {
                Some(text) => text.to_owned(),
                None => "false".to_owned(),
            },
        }
    } else if same(name.as_str(), "single_option") {
        let mut out: Vec<Entry> = Vec::new();
        let mut options = entries(node);
        let ghost all = options@;
        while options.len() > 0
            invariant
                all.len() == entries_of(node@).len(),
                forall|i: int|
                    0 <= i < all.len() ==> ((#[trigger] all[i]).0.id@, all[i].0.display@, all[i].1)
                        == entries_of(node@)[i],
                out@.len() + options@.len() == all.len(),
                forall|k: int| 0 <= k < out@.len() ==> #[trigger] out@[k] == all[k].0,
                forall|k: int|
                    0 <= k < options@.len() ==> #[trigger] options@[k] == all[k + out@.len()],
            decreases options@.len(),
        {
            let (entry, _) = options.remove(0);
            out.push(entry);
        }
        proof {
            assert(shown(out@) =~= choices_of(node@));
        }
        Kind::Choice { entries: out }
    } else if same(name.as_str(), "number_range") {
        Kind::Slider(
            Range {
                start: match number(node, "start") {
                    Some(n) => n,
                    None => Number::Whole(0),
                },
                end: match number(node, "end") {
                    Some(n) => n,
                    None => Number::Whole(0),
                },
                initial: number(node, "initial"),
                step: number(node, "step"),
            },
        )
    } else {
        Kind::Unknown
    };
    Input { key, label, kind }
}

/// The inputs of a definition, in order.
pub open spec fn inputs_of(definition: Doc) -> Seq<InputView> {
    let nodes = each_of(definition.at("inputs"@));
    Seq::new(nodes.len(), |i: int| input_of(nodes[i]))
}

/// The views of a list of inputs.
pub open spec fn input_views(inputs: Seq<Input>) -> Seq<InputView> {
    Seq::new(inputs.len(), |i: int| inputs[i]@)
}

/// The inputs of a definition, in order.
pub fn inputs(definition: &Json) -> (r: Vec<Input>)
    ensures
        input_views(r@) == inputs_of(definition@),
{
    let nodes = each(definition.get("inputs"));
    let mut out: Vec<Input> = Vec::new();
    let mut i: usize = 0;
    let ghost want = inputs_of(definition@);
    proof {
        assert(led(nodes@).len() == nodes@.len());
    }
    while i < nodes.len()
        invariant
            i <= nodes@.len(),
            nodes@.len() == want.len(),
            out@.len() == i,
            want == inputs_of(definition@),
            led(nodes@) == each_of(definition@.at("inputs"@)),
            forall|k: int| 0 <= k < i ==> (#[trigger] out@[k])@ == want[k],
        decreases nodes@.len() - i,
    {
        proof {
            assert(led(nodes@)[i as int] == nodes@[i as int]@);
        }
        out.push(input(nodes[i]));
        i += 1;
    }
    proof {
        assert(input_views(out@) =~= want);
    }
    out
}

/// The first input of a definition that says it has a key.
pub open spec fn keyed(nodes: Seq<Doc>, key: Seq<char>) -> Option<Doc>
    decreases nodes.len(),
{
    if nodes.len() == 0 {
        None
    } else if nodes[0].text_at("key"@) == Some(key) {
        Some(nodes[0])
    } else {
        keyed(nodes.drop_first(), key)
    }
}

fn node_with_key<'a>(definition: &'a Json, key: &str) -> (r: Option<&'a Json>)
    ensures
        match r {
            Some(node) => keyed(each_of(definition@.at("inputs"@)), key@) == Some(node@),
            None => keyed(each_of(definition@.at("inputs"@)), key@) is None,
        },
{
    let nodes = each(definition.get("inputs"));
    let mut i: usize = 0;
    let ghost all = led(nodes@);
    proof {
        assert(all.skip(0) =~= all);
    }
    while i < nodes.len()
        invariant
            i <= nodes@.len(),
            all == led(nodes@),
            all == each_of(definition@.at("inputs"@)),
            keyed(all, key@) == keyed(all.skip(i as int), key@),
        decreases nodes@.len() - i,
    {
        proof {
            assert(all.skip(i as int)[0] == nodes@[i as int]@);
            assert(all.skip(i as int).drop_first() =~= all.skip(i as int + 1));
        }
        match nodes[i].text_at("key") {
            Some(text) => {
                if same(text, key) {
                    return Some(nodes[i]);
                }
            },
            None => {},
        }
        i += 1;
    }
    None
}

/// The first id of a choice's options that it starts on.
pub open spec fn first_initial(entries: Seq<(Seq<char>, Seq<char>, bool)>) -> Option<Seq<char>>
    decreases entries.len(),
{
    if entries.len() == 0 {
        None
    } else if entries[0].2 {
        Some(entries[0].0)
    } else {
        first_initial(entries.drop_first())
    }
}

/// The number a slider of a key starts on.
pub open spec fn slider_start(sliders: Seq<(String, Slider)>, key: Seq<char>) -> Option<HeldView>
    decreases sliders.len(),
{
    if sliders.len() == 0 {
        None
    } else if sliders[0].0@ == key {
        let at = sliders[0].1;
        Some(HeldView::Slider(at.single, at.number, at.text@))
    } else {
        slider_start(sliders.drop_first(), key)
    }
}

/// What an input holds before anything was put into it.
pub open spec fn start_of(definition: Doc, input: InputView, sliders: Seq<(String, Slider)>) -> Option<
    HeldView,
> {
    let node = keyed(each_of(definition.at("inputs"@)), input.key);
    match input.kind {
        KindView::Text(_, _) => Some(
            HeldView::Text(
                match node {
                    Some(node) => or_empty(node.text_at("initial"@)),
                    None => Seq::empty(),
                },
            ),
        ),
        KindView::Checkbox(_, _) => Some(
            HeldView::Checkbox(
                match node {
                    Some(node) => truthy_of(node.at("initial"@)),
                    None => false,
                },
            ),
        ),
        KindView::Choice(entries) => Some(
            HeldView::Choice(
                match (
                    match node {
                        Some(node) => first_initial(entries_of(node)),
                        None => None,
                    }
                ) {
                    Some(id) => id,
                    None => if entries.len() > 0 {
                        entries[0].0
                    } else {
                        Seq::empty()
                    },
                },
            ),
        ),
        KindView::Slider(_) => slider_start(sliders, input.key),
        KindView::Unknown => None,
    }
}

/// What the first `n` inputs of a definition hold before anything was put into them, a later input
/// over an earlier one of the same key.
pub open spec fn starts(definition: Doc, sliders: Seq<(String, Slider)>, n: int) -> Map<
    Seq<char>,
    HeldView,
>
    decreases n,
{
    if n <= 0 {
        Map::empty()
    } else {
        let before = starts(definition, sliders, n - 1);
        let input = inputs_of(definition)[n - 1];
        match start_of(definition, input, sliders) {
            Some(held) => before.insert(input.key, held),
            None => before,
        }
    }
}

pub struct Open {
    pub definition: Json,
    pub held: Table<String, Held>,
}

impl Open {
    /// What every input holds, by its key.
    pub open spec fn holding(&self) -> Map<Seq<char>, HeldView> {
        Map::new(|k: Seq<char>| self.held@.dom().contains(k), |k: Seq<char>| self.held@[k]@)
    }

    /// A dialog as it comes up, with the number each slider starts on by its key.
    pub fn new(definition: Json, sliders: Vec<(String, Slider)>) -> (r: Open)
        ensures
            r.definition@ == definition@,
            r.holding() == starts(definition@, sliders@, inputs_of(definition@).len() as int),
    {
        let all = inputs(&definition);
        let ghost want = inputs_of(definition@);
        let mut open = Open { definition, held: Table::new() };
        let mut i: usize = 0;
        proof {
            assert(input_views(all@).len() == all@.len());
            assert(open.holding() =~= starts(definition@, sliders@, 0));
        }
        while i < all.len()
            invariant
                i <= all@.len(),
                all@.len() == want.len(),
                want == inputs_of(definition@),
                open.definition == definition,
                input_views(all@) == want,
                open.holding() == starts(definition@, sliders@, i as int),
            decreases all@.len() - i,
        {
            proof {
                assert(input_views(all@)[i as int] == all@[i as int]@);
            }
            let start = start(&open.definition, &all[i], &sliders);
            let ghost before = open.holding();
            match start {
                Some(held) => {
                    open.held.insert(all[i].key.clone(), held);
                    proof {
                        assert(open.holding() =~= before.insert(all@[i as int].key@, held@));
                    }
                },
                None => {},
            }
            i += 1;
        }
        open
    }

    /// The title as it reads and as the component it is.
    pub fn title(&self) -> (r: (String, Json))
        ensures
            r.1@ == match self.definition@.at("title"@) {
                Some(title) => title,
                None => Doc::Null,
            },
            r.0@ == r.1@.words(),
    {
        let component = match self.definition.get("title") {
            Some(title) => title.copy(),
            None => Json::Null,
        };
        (component.words(), component)
    }

    /// The name the client's screen class has for this kind of dialog, which is how the other kind of
    /// bot names the screen in a sentence.
    pub fn screen(&self) -> (r: &'static str)
        ensures
            r@ == screen_of(self.definition@),
    {
        let name = kind(&self.definition);
        if same(name.as_str(), "multi_action") {
            "MultiButtonDialogScreen"
        } else if same(name.as_str(), "dialog_list") {
            "DialogListDialogScreen"
        } else if same(name.as_str(), "server_links") {
            "ServerLinksDialogScreen"
        } else {
            "SimpleDialogScreen"
        }
    }

    pub fn closes_on_escape(&self) -> (r: bool)
        ensures
            r == match self.definition@.at("can_close_with_escape"@) {
                Some(value) => truthy_of(Some(value)),
                None => true,
            },
    {
        match self.definition.get("can_close_with_escape") {
            Some(value) => truthy(Some(value)),
            None => true,
        }
    }

    /// What the client does with its screen once a button has run: closes it unless told otherwise.
    pub fn stays_open_after(&self) -> (r: bool)
        ensures
            r == match self.definition@.text_at("after_action"@) {
                Some(after) => ends(after, "none"@),
                None => false,
            },
    {
        match self.definition.text_at("after_action") {
            Some(after) => ends_with(after, "none"),
            None => false,
        }
    }

    pub fn inputs(&self) -> (r: Vec<Input>)
        ensures
            input_views(r@) == inputs_of(self.definition@),
    {
        inputs(&self.definition)
    }

    pub fn held(&self, key: &str) -> (r: Option<&Held>)
        ensures
            match r {
                Some(held) => self.holding().dom().contains(key@) && self.holding()[key@] == held@,
                None => !self.holding().dom().contains(key@),
            },
    {
        self.held.get(&key.to_owned())
    }

    pub fn hold(&mut self, key: &str, value: Held)
        ensures
            final(self).definition == old(self).definition,
            final(self).holding() == old(self).holding().insert(key@, value@),
    {
        let ghost before = self.holding();
        self.held.insert(key.to_owned(), value);
        proof {
            assert(self.holding() =~= before.insert(key@, value@));
        }
    }

    /// Every input and what it holds, the way the dialog feed carries it: each key once, and its
    /// value under it.
    pub fn values(&self) -> (r: Json)
        ensures
            r@ == Doc::Object(values_of(self.held.list()), Seq::empty()),
            distinct(values_of(self.held.list())),
            map_of(values_of(self.held.list())) == Map::new(
                |k: Seq<char>| self.holding().dom().contains(k),
                |k: Seq<char>| value_of(self.holding()[k]),
            ),
    {
        let mut r = Json::object();
        let mut i: usize = 0;
        let ghost list = self.held.list();
        let n: usize = self.held.len();
        proof {
            assert(values_of(list.take(0)) =~= Seq::empty());
        }
        while i < n
            invariant
                i <= n == list.len(),
                list == self.held.list(),
                r@ == Doc::Object(values_of(list.take(i as int)), Seq::empty()),
            decreases n - i,
        {
            let (key, held) = self.held.entry(i);
            let value = match held {
                Held::Text(text) => Json::Text(text.clone()),
                Held::Choice(text) => Json::Text(text.clone()),
                Held::Checkbox(ticked) => Json::Bool(*ticked),
                Held::Slider(at) => Json::Number(at.number),
            };
            let ghost before = r@;
            r = r.with(key.as_str(), value);
            proof {
                assert(values_of(list.take(i as int + 1)) =~= values_of(list.take(i as int)).push(
                    (key@, value@),
                ));
            }
            i += 1;
        }
        proof {
            assert(list.take(n as int) =~= list);
            values_keep_the_keys(list);
            assert(map_of(values_of(list)) =~= Map::new(
                |k: Seq<char>| self.holding().dom().contains(k),
                |k: Seq<char>| value_of(self.holding()[k]),
            ));
        }
        r
    }

    /// The buttons in the order the client lays them out, the exit button last.
    pub fn buttons(&self) -> (r: Vec<Button>)
        ensures
            button_views(r@) == buttons_of(self.definition@),
    {
        let mut out: Vec<Button> = Vec::new();
        proof {
            assert(button_views(out@) =~= Seq::empty());
        }
        self.add_buttons("actions", &mut out);
        self.add_buttons("yes", &mut out);
        self.add_buttons("no", &mut out);
        self.add_buttons("action", &mut out);
        self.add_buttons("exit_action", &mut out);
        proof {
            let d = self.definition@;
            assert(Seq::<(Seq<char>, Option<Doc>)>::empty() + buttons_at(d, "actions"@)
                =~= buttons_at(d, "actions"@));
        }
        out
    }

    fn add_buttons(&self, field: &str, out: &mut Vec<Button>)
        ensures
            button_views(final(out)@) == button_views(old(out)@) + buttons_at(
                self.definition@,
                field@,
            ),
    {
        let nodes = each(self.definition.get(field));
        let ghost before = button_views(out@);
        let ghost want = buttons_at(self.definition@, field@);
        let mut i: usize = 0;
        proof {
            assert(led(nodes@).len() == nodes@.len());
            assert(before + want.take(0) =~= before);
        }
        while i < nodes.len()
            invariant
                i <= nodes@.len(),
                nodes@.len() == want.len(),
                want == buttons_at(self.definition@, field@),
                led(nodes@) == each_of(self.definition@.at(field@)),
                button_views(out@) == before + want.take(i as int),
            decreases nodes@.len() - i,
        {
            proof {
                assert(led(nodes@)[i as int] == nodes@[i as int]@);
            }
            let ghost held = out@;
            out.push(button(nodes[i]));
            proof {
                assert(button_views(out@) =~= button_views(held).push(out@.last()@));
                assert(button_views(out@) =~= before + want.take(i as int + 1));
            }
            i += 1;
        }
        proof {
            assert(want.take(want.len() as int) =~= want);
        }
    }

    pub fn exit(&self) -> (r: Option<Button>)
        ensures
            match r {
                Some(button) => buttons_at(self.definition@, "exit_action"@).len() > 0
                    && buttons_at(self.definition@, "exit_action"@)[0] == button@,
                None => buttons_at(self.definition@, "exit_action"@).len() == 0,
            },
    {
        let nodes = each(self.definition.get("exit_action"));
        proof {
            assert(led(nodes@).len() == nodes@.len());
        }
        if nodes.len() > 0 {
            proof {
                assert(led(nodes@)[0] == nodes@[0]@);
            }
            Some(button(nodes[0]))
        } else {
            None
        }
    }

    /// What pressing a button sends, read from the inputs as they are held now.
    pub fn action(&self, action: &Json) -> (r: Action)
        ensures
            r@ == action_of(self.definition@, self.holding(), action@),
    {
        let name = kind(action);
        if same(name.as_str(), "run_command") {
            Action::Command(owned(action.text_at("command")))
        } else if same(name.as_str(), "dynamic/run_command") {
            Action::Command(self.substitute(owned(action.text_at("template")).as_str()))
        } else if same(name.as_str(), "custom") {
            let payload = match action.get("payload") {
                Some(payload) => Some(tag(payload)),
                None => None,
            };
            Action::Custom { id: owned(action.text_at("id")), payload }
        } else if same(name.as_str(), "dynamic/custom") {
            let payload = self.payload(action);
            Action::Custom { id: owned(action.text_at("id")), payload: Some(payload) }
        } else {
            Action::Local
        }
    }

    /// The additions first, and each input under its key over them, as the client builds it.
    fn payload(&self, action: &Json) -> (r: Tag)
        ensures
            r@ == TagView::Compound(
                payload_of(
                    self.definition@,
                    self.holding(),
                    action@,
                    inputs_of(self.definition@).len() as int,
                ),
            ),
    {
        let mut fields: Vec<(String, Tag)> = match action.get("additions") {
            Some(additions) => {
                let made = tag(additions);
                proof {
                    parts_of_a_tag(made);
                }
                match made {
                    Tag::Compound(fields) => fields,
                    _ => Vec::new(),
                }
            },
            None => Vec::new(),
        };
        let all = self.inputs();
        let ghost want = inputs_of(self.definition@);
        let mut i: usize = 0;
        proof {
            assert(input_views(all@).len() == all@.len());
            assert(tags(fields@) =~= payload_of(self.definition@, self.holding(), action@, 0));
        }
        while i < all.len()
            invariant
                i <= all@.len(),
                all@.len() == want.len(),
                want == inputs_of(self.definition@),
                input_views(all@) == want,
                tags(fields@) == payload_of(self.definition@, self.holding(), action@, i as int),
            decreases all@.len() - i,
        {
            proof {
                assert(input_views(all@)[i as int] == all@[i as int]@);
            }
            let ghost before = fields@;
            let value = match self.held(all[i].key.as_str()) {
                Some(Held::Text(text)) => Some(Tag::Text(text.clone())),
                Some(Held::Choice(text)) => Some(Tag::Text(text.clone())),
                Some(Held::Checkbox(ticked)) => Some(
                    Tag::Byte(
                        if *ticked {
                            1
                        } else {
                            0
                        },
                    ),
                ),
                Some(Held::Slider(at)) => Some(Tag::Float(at.single)),
                None => None,
            };
            match value {
                Some(value) => {
                    let mut at: usize = 0;
                    while at < fields.len() && !same(fields[at].0.as_str(), all[i].key.as_str())
                        invariant
                            at <= fields@.len(),
                            i < all@.len(),
                            fields@ == before,
                            forall|k: int|
                                0 <= k < at ==> (#[trigger] tags(before)[k]).0 != all@[i as int].key@,
                        decreases fields@.len() - at,
                    {
                        at += 1;
                    }
                    proof {
                        assert(tags(before).len() == before.len());
                        overlaid_at(tags(before), all@[i as int].key@, value@, at as int);
                    }
                    if at < fields.len() {
                        fields.set(at, (all[i].key.clone(), value));
                        proof {
                            assert(tags(fields@) =~= tags(before).update(
                                at as int,
                                (all@[i as int].key@, value@),
                            ));
                        }
                    } else {
                        fields.push((all[i].key.clone(), value));
                        proof {
                            assert(tags(fields@) =~= tags(before).push(
                                (all@[i as int].key@, value@),
                            ));
                        }
                    }
                },
                None => {},
            }
            i += 1;
        }
        let r = Tag::Compound(fields);
        proof {
            parts_of_a_tag(r);
        }
        r
    }

    /// The slots a template can have, each with what its input puts there.
    fn slots(&self) -> (r: Vec<(Vec<char>, String)>)
        ensures
            slot_views(r@) == slots_of(
                self.definition@,
                self.holding(),
                inputs_of(self.definition@).len() as int,
            ),
    {
        let mut slots: Vec<(Vec<char>, String)> = Vec::new();
        let all = self.inputs();
        let ghost want = inputs_of(self.definition@);
        let mut i: usize = 0;
        proof {
            assert(input_views(all@).len() == all@.len());
            assert(slot_views(slots@) =~= Seq::empty());
        }
        while i < all.len()
            invariant
                i <= all@.len(),
                all@.len() == want.len(),
                want == inputs_of(self.definition@),
                input_views(all@) == want,
                slot_views(slots@) == slots_of(self.definition@, self.holding(), i as int),
            decreases all@.len() - i,
        {
            proof {
                assert(input_views(all@)[i as int] == all@[i as int]@);
            }
            let value: Option<&str> = match (self.held(all[i].key.as_str()), &all[i].kind) {
                (Some(Held::Checkbox(ticked)), Kind::Checkbox { on_true, on_false }) => Some(
                    if *ticked {
                        on_true.as_str()
                    } else {
                        on_false.as_str()
                    },
                ),
                (Some(Held::Text(text)), _) => Some(text.as_str()),
                (Some(Held::Choice(text)), _) => Some(text.as_str()),
                (Some(Held::Slider(at)), _) => Some(at.text.as_str()),
                _ => None,
            };
            match value {
                Some(value) => {
                    let ghost before = slots@;
                    let slot = cat3("$(", all[i].key.as_str(), ")");
                    slots.push((letters(slot.as_str()), value.to_owned()));
                    proof {
                        assert(slot_views(slots@) =~= slot_views(before).push((slot@, value@)));
                    }
                },
                None => {},
            }
            i += 1;
        }
        slots
    }

    /// `$(key)` replaced by what the input holds, in the form the client substitutes it. What was put
    /// in is not read as a template again.
    fn substitute(&self, template: &str) -> (r: String)
        ensures
            r@ == substituted(self.definition@, self.holding(), template@),
    {
        let slots = self.slots();
        let ghost known = slot_views(slots@);
        let all = letters(template);
        let mut out: String = String::new();
        let mut i: usize = 0;
        proof {
            reveal_strlit("");
            assert(template@.skip(0) =~= template@);
            assert(out@ + filled_in(known, template@) =~= filled_in(known, template@));
        }
        while i < all.len()
            invariant
                i <= all@.len(),
                all@ == template@,
                known == slot_views(slots@),
                out@ + filled_in(known, template@.skip(i as int)) == filled_in(known, template@),
            decreases all@.len() - i,
        {
            let ghost rest = template@.skip(i as int);
            let mut k: usize = 0;
            while k < slots.len() && !(slots[k].0.len() > 0 && matches_at(&all, &slots[k].0, i))
                invariant
                    i < all@.len(),
                    k <= slots@.len(),
                    all@ == template@,
                    known == slot_views(slots@),
                    rest == template@.skip(i as int),
                    slot_here(known, rest, 0) == slot_here(known, rest, k as int),
                decreases slots@.len() - k,
            {
                proof {
                    begins_behind(template@, slots@[k as int].0@, i as int);
                }
                k += 1;
            }
            let ghost was = out@;
            if k < slots.len() {
                proof {
                    begins_behind(template@, slots@[k as int].0@, i as int);
                    assert(rest.skip(slots@[k as int].0@.len() as int) =~= template@.skip(
                        i + slots@[k as int].0@.len(),
                    ));
                }
                out.append(slots[k].1.as_str());
                i += slots[k].0.len();
            } else {
                proof {
                    assert(rest.skip(1) =~= template@.skip(i + 1));
                    assert(rest[0] == all@[i as int]);
                }
                out.push(all[i]);
                i += 1;
            }
            proof {
                assert(out@ + filled_in(known, template@.skip(i as int)) =~= was + filled_in(
                    known,
                    rest,
                ));
            }
        }
        proof {
            assert(template@.skip(i as int) =~= Seq::<char>::empty());
            assert(out@ + Seq::<char>::empty() =~= out@);
        }
        out
    }
}

fn start(definition: &Json, input: &Input, sliders: &Vec<(String, Slider)>) -> (r: Option<Held>)
    ensures
        match r {
            Some(held) => start_of(definition@, input@, sliders@) == Some(held@),
            None => start_of(definition@, input@, sliders@) is None,
        },
{
    let node = node_with_key(definition, input.key.as_str());
    match &input.kind {
        Kind::Text { .. } => Some(
            Held::Text(
                match node {
                    Some(node) => owned(node.text_at("initial")),
                    None => owned(None),
                },
            ),
        ),
        Kind::Checkbox { .. } => Some(
            Held::Checkbox(
                match node {
                    Some(node) => truthy(node.get("initial")),
                    None => false,
                },
            ),
        ),
        Kind::Choice { entries: choices } => {
            let chosen: Option<String> = match node {
                Some(node) => started(node),
                None => None,
            };
            proof {
                assert(shown(choices@).len() == choices@.len());
            }
            let id = match chosen {
                Some(id) => id,
                None => if choices.len() > 0 {
                    proof {
                        assert(shown(choices@)[0].0 == choices@[0].id@);
                    }
                    choices[0].id.clone()
                } else {
                    owned(None)
                },
            };
            Some(Held::Choice(id))
        },
        Kind::Slider(_) => {
            let mut i: usize = 0;
            proof {
                assert(sliders@.skip(0) =~= sliders@);
            }
            while i < sliders.len()
                invariant
                    i <= sliders@.len(),
                    slider_start(sliders@, input.key@) == slider_start(
                        sliders@.skip(i as int),
                        input.key@,
                    ),
                    start_of(definition@, input@, sliders@) == slider_start(sliders@, input.key@),
                decreases sliders@.len() - i,
            {
                if same(sliders[i].0.as_str(), input.key.as_str()) {
                    let at = &sliders[i].1;
                    return Some(
                        Held::Slider(
                            Slider { single: at.single, number: at.number, text: at.text.clone() },
                        ),
                    );
                }
                proof {
                    assert(sliders@.skip(i as int).drop_first() =~= sliders@.skip(i as int + 1));
                }
                i += 1;
            }
            None
        },
        Kind::Unknown => None,
    }
}

/// The id of the first option a choice starts on.
fn started(node: &Json) -> (r: Option<String>)
    ensures
        match r {
            Some(id) => first_initial(entries_of(node@)) == Some(id@),
            None => first_initial(entries_of(node@)) is None,
        },
{
    let all = entries(node);
    let ghost list = entries_of(node@);
    let mut i: usize = 0;
    proof {
        assert(list.skip(0) =~= list);
    }
    while i < all.len()
        invariant
            i <= all@.len(),
            list == entries_of(node@),
            all@.len() == list.len(),
            forall|k: int|
                0 <= k < all@.len() ==> ((#[trigger] all@[k]).0.id@, all@[k].0.display@, all@[k].1)
                    == list[k],
            first_initial(list) == first_initial(list.skip(i as int)),
        decreases all@.len() - i,
    {
        proof {
            assert(list.skip(i as int)[0] == (
                all@[i as int].0.id@,
                all@[i as int].0.display@,
                all@[i as int].1,
            ));
            assert(list.skip(i as int).drop_first() =~= list.skip(i as int + 1));
        }
        if all[i].1 {
            return Some(all[i].0.id.clone());
        }
        i += 1;
    }
    None
}

/// The name the client's screen class has for a kind of dialog.
pub open spec fn screen_of(definition: Doc) -> Seq<char> {
    if kind_of(definition) == "multi_action"@ {
        "MultiButtonDialogScreen"@
    } else if kind_of(definition) == "dialog_list"@ {
        "DialogListDialogScreen"@
    } else if kind_of(definition) == "server_links"@ {
        "ServerLinksDialogScreen"@
    } else {
        "SimpleDialogScreen"@
    }
}

/// What an input holds, in a document.
pub open spec fn value_of(held: HeldView) -> Doc {
    match held {
        HeldView::Text(text) => Doc::Text(text),
        HeldView::Choice(text) => Doc::Text(text),
        HeldView::Checkbox(ticked) => Doc::Bool(ticked),
        HeldView::Slider(_, number, _) => Doc::Number(number),
    }
}

/// What a list of inputs holds, in a document.
pub open spec fn values_of(list: Seq<(Seq<char>, Held)>) -> Seq<(Seq<char>, Doc)> {
    Seq::new(list.len(), |i: int| (list[i].0, value_of(list[i].1@)))
}

proof fn values_keep_the_keys(list: Seq<(Seq<char>, Held)>)
    requires
        distinct(list),
    ensures
        distinct(values_of(list)),
        forall|k: Seq<char>|
            map_of(values_of(list)).dom().contains(k) == map_of(list).dom().contains(k),
        forall|k: Seq<char>| #[trigger]
            map_of(list).dom().contains(k) ==> map_of(values_of(list))[k] == value_of(
                map_of(list)[k]@,
            ),
{
    let made = values_of(list);
    assert forall|i: int, j: int| 0 <= i < j < made.len() implies (#[trigger] made[i]).0 != (
    #[trigger] made[j]).0 by {
        assert(list[i].0 != list[j].0);
    }
    assert forall|k: Seq<char>|
        map_of(made).dom().contains(k) == map_of(list).dom().contains(k) by {
        if crate::table::holds(made, k) {
            let at = crate::table::spot(made, k);
            assert(list[at].0 == k);
        }
        if crate::table::holds(list, k) {
            let at = crate::table::spot(list, k);
            assert(made[at].0 == k);
        }
    }
    assert forall|k: Seq<char>| #[trigger] map_of(list).dom().contains(k) implies map_of(made)[k]
        == value_of(map_of(list)[k]@) by {
        let at = crate::table::spot(list, k);
        crate::table::entry_of_the_map(list, at);
        crate::table::entry_of_the_map(made, at);
    }
}

/// A button as a definition gives it: the words on it, and its action where it has one.
pub open spec fn button_of(node: Doc) -> (Seq<char>, Option<Doc>) {
    (
        match node.at("label"@) {
            Some(label) => label.words(),
            None => Seq::empty(),
        },
        node.at("action"@),
    )
}

fn button(node: &Json) -> (r: Button)
    ensures
        r@ == button_of(node@),
{
    Button {
        label: match node.get("label") {
            Some(label) => label.words(),
            None => owned(None),
        },
        action: match node.get("action") {
            Some(action) => Some(action.copy()),
            None => None,
        },
    }
}

/// The views of a list of buttons.
pub open spec fn button_views(buttons: Seq<Button>) -> Seq<(Seq<char>, Option<Doc>)> {
    Seq::new(buttons.len(), |i: int| buttons[i]@)
}

/// The buttons a field of a definition gives.
pub open spec fn buttons_at(definition: Doc, name: Seq<char>) -> Seq<(Seq<char>, Option<Doc>)> {
    let nodes = each_of(definition.at(name));
    Seq::new(nodes.len(), |i: int| button_of(nodes[i]))
}

/// The buttons of a definition in the order the client lays them out.
pub open spec fn buttons_of(definition: Doc) -> Seq<(Seq<char>, Option<Doc>)> {
    buttons_at(definition, "actions"@) + buttons_at(definition, "yes"@) + buttons_at(
        definition,
        "no"@,
    ) + buttons_at(definition, "action"@) + buttons_at(definition, "exit_action"@)
}

/// What an input's value is sent as.
pub open spec fn sent_as(held: HeldView) -> TagView {
    match held {
        HeldView::Text(text) => TagView::Text(text),
        HeldView::Choice(text) => TagView::Text(text),
        HeldView::Checkbox(ticked) => TagView::Byte(
            if ticked {
                1
            } else {
                0
            },
        ),
        HeldView::Slider(single, _, _) => TagView::Float(single),
    }
}

/// Some tags with one under a key: in the place of the one that stands there, or behind the others.
pub open spec fn overlaid(fields: Seq<(Seq<char>, TagView)>, key: Seq<char>, value: TagView) -> Seq<
    (Seq<char>, TagView),
>
    decreases fields.len(),
{
    if fields.len() == 0 {
        seq![(key, value)]
    } else if fields[0].0 == key {
        fields.update(0, (key, value))
    } else {
        seq![fields[0]] + overlaid(fields.drop_first(), key, value)
    }
}

proof fn overlaid_at(fields: Seq<(Seq<char>, TagView)>, key: Seq<char>, value: TagView, i: int)
    requires
        0 <= i <= fields.len(),
        forall|k: int| 0 <= k < i ==> (#[trigger] fields[k]).0 != key,
        i < fields.len() ==> fields[i].0 == key,
    ensures
        overlaid(fields, key, value) == if i < fields.len() {
            fields.update(i, (key, value))
        } else {
            fields.push((key, value))
        },
    decreases fields.len(),
{
    if fields.len() == 0 {
        assert(fields.push((key, value)) =~= seq![(key, value)]);
    } else if i > 0 {
        assert(fields[0].0 != key);
        let rest = fields.drop_first();
        assert forall|k: int| 0 <= k < i - 1 implies (#[trigger] rest[k]).0 != key by {
            assert(fields[k + 1].0 != key);
        }
        overlaid_at(rest, key, value, i - 1);
        if i < fields.len() {
            assert(seq![fields[0]] + rest.update(i - 1, (key, value)) =~= fields.update(
                i,
                (key, value),
            ));
        } else {
            assert(seq![fields[0]] + rest.push((key, value)) =~= fields.push((key, value)));
        }
    }
}

/// An input's value is what stands under its key, whatever was added there.
pub proof fn an_input_stands_over_the_additions(
    fields: Seq<(Seq<char>, TagView)>,
    key: Seq<char>,
    value: TagView,
)
    ensures
        ({
            let after = overlaid(fields, key, value);
            &&& exists|i: int| 0 <= i < after.len() && #[trigger] after[i] == (key, value)
            &&& forall|i: int|
                0 <= i < fields.len() && (#[trigger] fields[i]).0 != key ==> after[i] == fields[i]
            &&& fields.len() <= after.len() <= fields.len() + 1
        }),
    decreases fields.len(),
{
    let after = overlaid(fields, key, value);
    if fields.len() == 0 || fields[0].0 == key {
        assert(after[0] == (key, value));
    } else {
        let rest = fields.drop_first();
        an_input_stands_over_the_additions(rest, key, value);
        let behind = overlaid(rest, key, value);
        let i = choose|i: int| 0 <= i < behind.len() && #[trigger] behind[i] == (key, value);
        assert(after[i + 1] == (key, value));
        assert forall|i: int| 0 <= i < fields.len() && (#[trigger] fields[i]).0 != key implies after[i]
            == fields[i] by {
            if i > 0 {
                assert(rest[i - 1] == fields[i]);
                assert(after[i] == behind[i - 1]);
            }
        }
    }
}

/// What a custom action carries: its additions, and over them the first `n` inputs that hold
/// something, each under its key.
pub open spec fn payload_of(
    definition: Doc,
    holding: Map<Seq<char>, HeldView>,
    action: Doc,
    n: int,
) -> Seq<(Seq<char>, TagView)>
    decreases n,
{
    if n <= 0 {
        match action.at("additions"@) {
            Some(additions) => match tag_of(additions) {
                TagView::Compound(fields) => fields,
                _ => Seq::empty(),
            },
            None => Seq::empty(),
        }
    } else {
        let before = payload_of(definition, holding, action, n - 1);
        let key = inputs_of(definition)[n - 1].key;
        if holding.dom().contains(key) {
            overlaid(before, key, sent_as(holding[key]))
        } else {
            before
        }
    }
}

/// What an input puts into a template, where it puts something.
pub open spec fn written_as(held: HeldView, kind: KindView) -> Option<Seq<char>> {
    match held {
        HeldView::Text(text) => Some(text),
        HeldView::Choice(text) => Some(text),
        HeldView::Slider(_, _, text) => Some(text),
        HeldView::Checkbox(ticked) => match kind {
            KindView::Checkbox(on_true, on_false) => Some(
                if ticked {
                    on_true
                } else {
                    on_false
                },
            ),
            _ => None,
        },
    }
}

/// The slots of the first `n` inputs that hold something, each with what its input puts there.
pub open spec fn slots_of(definition: Doc, holding: Map<Seq<char>, HeldView>, n: int) -> Seq<
    (Seq<char>, Seq<char>),
>
    decreases n,
{
    if n <= 0 {
        Seq::empty()
    } else {
        let before = slots_of(definition, holding, n - 1);
        let input = inputs_of(definition)[n - 1];
        if holding.dom().contains(input.key) {
            match written_as(holding[input.key], input.kind) {
                Some(value) => before.push(("$("@ + input.key + ")"@, value)),
                None => before,
            }
        } else {
            before
        }
    }
}

pub open spec fn slot_views(slots: Seq<(Vec<char>, String)>) -> Seq<(Seq<char>, Seq<char>)> {
    Seq::new(slots.len(), |i: int| (slots[i].0@, slots[i].1@))
}

/// The first slot from `i` on that a text begins with.
pub open spec fn slot_here(slots: Seq<(Seq<char>, Seq<char>)>, text: Seq<char>, i: int) -> Option<int>
    decreases slots.len() - i,
{
    if i < 0 || i >= slots.len() {
        None
    } else if slots[i].0.len() > 0 && begins(text, slots[i].0) {
        Some(i)
    } else {
        slot_here(slots, text, i + 1)
    }
}

/// A template with its slots filled in, read once from its beginning to its end.
pub open spec fn filled_in(slots: Seq<(Seq<char>, Seq<char>)>, template: Seq<char>) -> Seq<char>
    decreases template.len(),
{
    let here = slot_here(slots, template, 0);
    if template.len() == 0 {
        template
    } else if here is Some && 0 < slots[here->0].0.len() <= template.len() {
        slots[here->0].1 + filled_in(slots, template.skip(slots[here->0].0.len() as int))
    } else {
        seq![template[0]] + filled_in(slots, template.skip(1))
    }
}

/// A template with what the inputs hold in its slots.
pub open spec fn substituted(
    definition: Doc,
    holding: Map<Seq<char>, HeldView>,
    template: Seq<char>,
) -> Seq<char> {
    filled_in(slots_of(definition, holding, inputs_of(definition).len() as int), template)
}

proof fn begins_behind(text: Seq<char>, part: Seq<char>, at: int)
    requires
        0 <= at <= text.len(),
    ensures
        begins(text.skip(at), part) == stands_at(text, part, at),
{
    if at + part.len() <= text.len() {
        assert(text.skip(at).subrange(0, part.len() as int) =~= text.subrange(
            at,
            at + part.len(),
        ));
    }
}

/// What an input puts into a template stands there as it is, whatever it reads like: only what the
/// template goes on with is read further.
pub proof fn what_was_put_in_is_not_read_again(
    slots: Seq<(Seq<char>, Seq<char>)>,
    at: int,
    rest: Seq<char>,
)
    requires
        0 <= at < slots.len(),
        slots[at].0.len() > 0,
        slot_here(slots, slots[at].0 + rest, 0) == Some(at),
    ensures
        filled_in(slots, slots[at].0 + rest) == slots[at].1 + filled_in(slots, rest),
{
    assert((slots[at].0 + rest).skip(slots[at].0.len() as int) =~= rest);
}

/// What an action of a definition sends, with what its inputs hold.
pub open spec fn action_of(
    definition: Doc,
    holding: Map<Seq<char>, HeldView>,
    action: Doc,
) -> ActionView {
    let n = inputs_of(definition).len() as int;
    if kind_of(action) == "run_command"@ {
        ActionView::Command(or_empty(action.text_at("command"@)))
    } else if kind_of(action) == "dynamic/run_command"@ {
        ActionView::Command(
            substituted(definition, holding, or_empty(action.text_at("template"@))),
        )
    } else if kind_of(action) == "custom"@ {
        ActionView::Custom(
            or_empty(action.text_at("id"@)),
            match action.at("payload"@) {
                Some(payload) => Some(tag_of(payload)),
                None => None,
            },
        )
    } else if kind_of(action) == "dynamic/custom"@ {
        ActionView::Custom(
            or_empty(action.text_at("id"@)),
            Some(TagView::Compound(payload_of(definition, holding, action, n))),
        )
    } else {
        ActionView::Local
    }
}

/// An input is read from its node: its key, its label, and by its type what it takes, with the lengths
/// and the words it has where it says none.
pub proof fn an_input_is_read_by_its_type(node: Doc)
    ensures
        ({
            let input = input_of(node);
            let kind = kind_of(node);
            &&& node.text_at("key"@) matches Some(key) ==> input.key == key
            &&& node.at("label"@) matches Some(label) ==> input.label == label
            &&& kind == "text"@ ==> (input.kind matches KindView::Text(max_length, multiline) && (
            node.nat_at("max_length"@) matches Some(n) ==> max_length == n) && (node.nat_at(
                "max_length"@,
            ) is None ==> max_length == 32) && multiline == (node.at("multiline"@) is Some))
            &&& kind == "boolean"@ ==> (input.kind matches KindView::Checkbox(on_true, on_false) && (
            node.text_at("on_true"@) matches Some(words) ==> on_true == words) && (node.text_at(
                "on_false"@,
            ) matches Some(words) ==> on_false == words) && (node.text_at("on_true"@) is None
                ==> on_true == "true"@) && (node.text_at("on_false"@) is None ==> on_false
                == "false"@))
            &&& kind == "single_option"@ ==> (input.kind matches KindView::Choice(entries)
                && entries.len() == each_of(node.at("options"@)).len())
            &&& kind == "number_range"@ ==> (input.kind matches KindView::Slider(range) && (number_at(
                node,
                "start"@,
            ) matches Some(start) ==> range.start == start) && (number_at(node, "end"@) matches Some(end)
                ==> range.end == end) && range.initial == number_at(node, "initial"@) && range.step
                == number_at(node, "step"@))
            &&& kind != "text"@ && kind != "boolean"@ && kind != "single_option"@ && kind
                != "number_range"@ ==> input.kind is Unknown
        }),
{
    reveal_strlit("text");
    reveal_strlit("boolean");
    reveal_strlit("single_option");
    reveal_strlit("number_range");
    assert("text"@.len() == 4);
    assert("boolean"@.len() == 7);
    assert("single_option"@.len() == 13);
    assert("number_range"@.len() == 12);
}

/// A node that stands alone is a list of one, and one that is missing or null is an empty list.
pub proof fn one_is_a_list_of_one(items: Seq<Doc>, drawn: Seq<char>, one: Doc)
    ensures
        each_of(None).len() == 0,
        each_of(Some(Doc::Null)).len() == 0,
        each_of(Some(Doc::Array(items, drawn))) == items,
        !(one is Array) && !(one is Null) ==> each_of(Some(one)) == seq![one],
{
}

/// An option goes by its id, and is shown by its words, or by its id where it has none.
pub proof fn an_option_is_shown_by_its_words(option: Doc, text: Seq<char>)
    ensures
        entry_of(Doc::Text(text)).0 == text && entry_of(Doc::Text(text)).1 == text && !entry_of(
            Doc::Text(text),
        ).2,
        !(option is Text) ==> {
            &&& option.text_at("id"@) matches Some(id) ==> entry_of(option).0 == id
            &&& option.at("display"@) matches Some(display) ==> entry_of(option).1 == display.words()
            &&& option.at("display"@) is None ==> entry_of(option).1 == entry_of(option).0
            &&& option.bool_at("initial"@) matches Some(initial) ==> entry_of(option).2 == initial
            &&& option.at("initial"@) is None ==> !entry_of(option).2
        },
{
}

/// What an input holds when the dialog opens: the text it starts with, whether it is ticked, the
/// option marked as initial or else the first, and where its slider starts.
pub proof fn an_input_starts_from_its_definition(
    definition: Doc,
    input: InputView,
    node: Doc,
    sliders: Seq<(String, Slider)>,
)
    requires
        keyed(each_of(definition.at("inputs"@)), input.key) == Some(node),
    ensures
        input.kind is Text ==> (node.text_at("initial"@) matches Some(text) ==> start_of(
            definition,
            input,
            sliders,
        ) == Some(HeldView::Text(text))),
        input.kind is Text && node.text_at("initial"@) is None ==> start_of(
            definition,
            input,
            sliders,
        ) == Some(HeldView::Text(Seq::empty())),
        input.kind is Checkbox ==> (node.bool_at("initial"@) matches Some(ticked) ==> start_of(
            definition,
            input,
            sliders,
        ) == Some(HeldView::Checkbox(ticked))),
        input.kind is Checkbox && node.at("initial"@) is None ==> start_of(
            definition,
            input,
            sliders,
        ) == Some(HeldView::Checkbox(false)),
        input.kind matches KindView::Choice(entries) ==> {
            &&& first_initial(entries_of(node)) matches Some(id) ==> start_of(
                definition,
                input,
                sliders,
            ) == Some(HeldView::Choice(id))
            &&& first_initial(entries_of(node)) is None && entries.len() > 0 ==> start_of(
                definition,
                input,
                sliders,
            ) == Some(HeldView::Choice(entries[0].0))
        },
        input.kind is Unknown ==> start_of(definition, input, sliders) is None,
        input.kind is Slider ==> start_of(definition, input, sliders) == slider_start(
            sliders,
            input.key,
        ),
{
}

/// The buttons come in the order the client lays them out, the exit button last, each with its words
/// and what it does.
pub proof fn the_exit_button_is_last(definition: Doc, node: Doc)
    ensures
        node.at("label"@) matches Some(label) ==> button_of(node).0 == label.words(),
        button_of(node).1 == node.at("action"@),
        ({
            let all = buttons_of(definition);
            let exits = buttons_at(definition, "exit_action"@);
            let firsts = buttons_at(definition, "actions"@);
            &&& all.len() >= exits.len() + firsts.len()
            &&& forall|i: int|
                0 <= i < exits.len() ==> all[all.len() - exits.len() + i] == #[trigger] exits[i]
            &&& forall|i: int| 0 <= i < firsts.len() ==> #[trigger] firsts[i] == all[i]
            &&& each_of(definition.at("yes"@)).len() == 1 && each_of(definition.at("no"@)).len() == 1
                && firsts.len() == 0 ==> all[0] == button_of(each_of(definition.at("yes"@))[0])
                && all[1] == button_of(each_of(definition.at("no"@))[0])
        }),
{
    let firsts = buttons_at(definition, "actions"@);
    let yes = buttons_at(definition, "yes"@);
    let no = buttons_at(definition, "no"@);
    let action = buttons_at(definition, "action"@);
    let exits = buttons_at(definition, "exit_action"@);
    let all = firsts + yes + no + action + exits;
    assert(all == buttons_of(definition));
    assert forall|i: int| 0 <= i < exits.len() implies all[all.len() - exits.len() + i]
        == #[trigger] exits[i] by {}
    assert forall|i: int| 0 <= i < firsts.len() implies #[trigger] firsts[i] == all[i] by {}
}

/// What an input holds is told as what it is: words, a choice's id, a tick, a number.
pub proof fn what_is_held_is_told_as_it_is(text: Seq<char>, ticked: bool, single: u32, number: Number)
    ensures
        value_of(HeldView::Text(text)) == Doc::Text(text),
        value_of(HeldView::Choice(text)) == Doc::Text(text),
        value_of(HeldView::Checkbox(ticked)) == Doc::Bool(ticked),
        value_of(HeldView::Slider(single, number, text)) == Doc::Number(number),
        sent_as(HeldView::Text(text)) == TagView::Text(text),
        sent_as(HeldView::Choice(text)) == TagView::Text(text),
        sent_as(HeldView::Checkbox(true)) == TagView::Byte(1),
        sent_as(HeldView::Checkbox(false)) == TagView::Byte(0),
        sent_as(HeldView::Slider(single, number, text)) == TagView::Float(single),
{
}

/// What an input puts into a template: its text, its choice's id, its slider's number as it is written,
/// and for a tick the words for ticked or for not.
pub proof fn a_tick_is_written_in_its_own_words(
    text: Seq<char>,
    on_true: Seq<char>,
    on_false: Seq<char>,
    single: u32,
    number: Number,
    kind: KindView,
)
    ensures
        written_as(HeldView::Text(text), kind) == Some(text),
        written_as(HeldView::Choice(text), kind) == Some(text),
        written_as(HeldView::Slider(single, number, text), kind) == Some(text),
        written_as(HeldView::Checkbox(true), KindView::Checkbox(on_true, on_false)) == Some(on_true),
        written_as(HeldView::Checkbox(false), KindView::Checkbox(on_true, on_false)) == Some(
            on_false,
        ),
{
}

/// A template has a slot for each input that holds something, written around the input's key.
pub proof fn an_input_has_its_slot(definition: Doc, holding: Map<Seq<char>, HeldView>, n: int)
    requires
        0 <= n < inputs_of(definition).len(),
    ensures
        ({
            let before = slots_of(definition, holding, n);
            let all = slots_of(definition, holding, n + 1);
            let input = inputs_of(definition)[n];
            &&& !holding.dom().contains(input.key) ==> all == before
            &&& holding.dom().contains(input.key) ==> (written_as(holding[input.key], input.kind) matches Some(
                value,
            ) ==> all.len() == before.len() + 1 && all.last().0 == "$("@ + input.key + ")"@
                && all.last().1 == value)
        }),
{
}

/// What each kind of action sends: a command as it is or with its template filled in, a custom click
/// with its own payload or with what the inputs hold, and any other nothing.
pub proof fn each_action_sends_its_own(
    definition: Doc,
    holding: Map<Seq<char>, HeldView>,
    action: Doc,
)
    ensures
        kind_of(action) == "run_command"@ ==> (action.text_at("command"@) matches Some(command)
            ==> action_of(definition, holding, action) == ActionView::Command(command)),
        kind_of(action) == "dynamic/run_command"@ ==> (action.text_at("template"@) matches Some(template)
            ==> action_of(definition, holding, action) == ActionView::Command(
            substituted(definition, holding, template),
        )),
        kind_of(action) == "custom"@ ==> (action.text_at("id"@) matches Some(id) ==> (
        action.at("payload"@) matches Some(payload) ==> action_of(definition, holding, action)
            == ActionView::Custom(id, Some(tag_of(payload))))),
        kind_of(action) == "custom"@ && action.at("payload"@) is None ==> (action_of(
            definition,
            holding,
            action,
        ) matches ActionView::Custom(_, payload) && payload is None),
        kind_of(action) == "dynamic/custom"@ ==> (action_of(definition, holding, action) matches ActionView::Custom(
            id,
            payload,
        ) && (action.text_at("id"@) matches Some(named) ==> id == named) && payload is Some),
        kind_of(action) != "run_command"@ && kind_of(action) != "dynamic/run_command"@ && kind_of(
            action,
        ) != "custom"@ && kind_of(action) != "dynamic/custom"@ ==> action_of(
            definition,
            holding,
            action,
        ) == ActionView::Local,
{
    reveal_strlit("run_command");
    reveal_strlit("dynamic/run_command");
    reveal_strlit("custom");
    reveal_strlit("dynamic/custom");
    assert("run_command"@.len() == 11);
    assert("dynamic/run_command"@.len() == 19);
    assert("custom"@.len() == 6);
    assert("dynamic/custom"@.len() == 14);
}

/// The screen of a dialog is the one its type is drawn on.
pub proof fn a_dialog_has_its_own_screen(definition: Doc)
    ensures
        kind_of(definition) == "multi_action"@ ==> screen_of(definition)
            == "MultiButtonDialogScreen"@,
        kind_of(definition) == "dialog_list"@ ==> screen_of(definition) == "DialogListDialogScreen"@,
        kind_of(definition) == "server_links"@ ==> screen_of(definition)
            == "ServerLinksDialogScreen"@,
        kind_of(definition) == "notice"@ || kind_of(definition) == "confirmation"@ ==> screen_of(
            definition,
        ) == "SimpleDialogScreen"@,
{
    reveal_strlit("multi_action");
    reveal_strlit("dialog_list");
    reveal_strlit("server_links");
    reveal_strlit("notice");
    reveal_strlit("confirmation");
    assert("multi_action"@.len() == 12);
    assert("dialog_list"@.len() == 11);
    assert("server_links"@.len() == 12);
    assert("notice"@.len() == 6);
    assert("confirmation"@.len() == 12);
    assert("multi_action"@[0] != "server_links"@[0]);
    assert("multi_action"@[0] != "confirmation"@[0]);
    assert("server_links"@[0] != "confirmation"@[0]);
}

/// What is ticked is a true flag or a number that is not nothing.
pub proof fn what_counts_as_ticked(flag: bool, n: i64)
    ensures
        truthy_of(Some(Doc::Bool(flag))) == flag,
        truthy_of(Some(Doc::Number(Number::Whole(n)))) == (n != 0),
        !truthy_of(None),
        !truthy_of(Some(Doc::Null)),
{
}

/// Each input that has something to start with holds it under its key, and the others hold nothing more.
pub proof fn each_input_starts_under_its_key(definition: Doc, sliders: Seq<(String, Slider)>, n: int)
    requires
        0 <= n < inputs_of(definition).len(),
    ensures
        starts(definition, sliders, 0) == Map::<Seq<char>, HeldView>::empty(),
        ({
            let input = inputs_of(definition)[n];
            &&& start_of(definition, input, sliders) matches Some(held) ==> starts(
                definition,
                sliders,
                n + 1,
            )[input.key] == held && starts(definition, sliders, n + 1).dom().contains(input.key)
            &&& start_of(definition, input, sliders) is None ==> starts(definition, sliders, n + 1)
                == starts(definition, sliders, n)
        }),
        inputs_of(definition).len() == each_of(definition.at("inputs"@)).len(),
        inputs_of(definition)[n] == input_of(each_of(definition.at("inputs"@))[n]),
{
}

/// A custom click carries its additions, and over them what each input holds under its key.
pub proof fn a_payload_carries_what_the_inputs_hold(
    definition: Doc,
    holding: Map<Seq<char>, HeldView>,
    action: Doc,
    n: int,
)
    requires
        0 <= n < inputs_of(definition).len(),
    ensures
        ({
            let key = inputs_of(definition)[n].key;
            let after = payload_of(definition, holding, action, n + 1);
            &&& holding.dom().contains(key) ==> exists|i: int|
                0 <= i < after.len() && #[trigger] after[i] == (key, sent_as(holding[key]))
            &&& !holding.dom().contains(key) ==> after == payload_of(definition, holding, action, n)
        }),
        action.at("additions"@) is None ==> payload_of(definition, holding, action, 0).len() == 0,
        action.at("additions"@) matches Some(additions) ==> (tag_of(additions) matches TagView::Compound(
            fields,
        ) ==> payload_of(definition, holding, action, 0) == fields),
{
    let key = inputs_of(definition)[n].key;
    if holding.dom().contains(key) {
        let before = payload_of(definition, holding, action, n);
        let after = payload_of(definition, holding, action, n + 1);
        an_input_stands_over_the_additions(before, key, sent_as(holding[key]));
        assert(after == overlaid(before, key, sent_as(holding[key])));
        let i = choose|i: int|
            0 <= i < after.len() && #[trigger] after[i] == (key, sent_as(holding[key]));
        assert(after[i] == (key, sent_as(holding[key])));
    }
}

/// What the inputs hold is told under their keys.
pub proof fn what_is_held_is_told_under_its_key(list: Seq<(Seq<char>, Held)>, i: int)
    requires
        0 <= i < list.len(),
    ensures
        values_of(list).len() == list.len(),
        values_of(list)[i].0 == list[i].0,
        values_of(list)[i].1 == value_of(list[i].1@),
{
}

/// An input, what it holds and a button read as they are.
pub proof fn the_parts_of_a_dialog_read_as_they_are(input: Input, text: String, ticked: bool, on_true: String, on_false: String)
    ensures
        input@.key == input.key@ && input@.label == input.label@ && input@.kind == input.kind@,
        Held::Text(text)@ == HeldView::Text(text@) && Held::Choice(text)@ == HeldView::Choice(text@)
            && Held::Checkbox(ticked)@ == HeldView::Checkbox(ticked),
        (Kind::Checkbox { on_true, on_false })@ == KindView::Checkbox(on_true@, on_false@),
{
}

/// A slider starts where the first of its key stands.
pub proof fn a_slider_starts_where_it_stands(sliders: Seq<(String, Slider)>, key: Seq<char>, n: int)
    requires
        0 <= n < sliders.len(),
        sliders[n].0@ == key,
        forall|i: int| 0 <= i < n ==> (#[trigger] sliders[i]).0@ != key,
    ensures
        slider_start(sliders, key) == Some(
            HeldView::Slider(sliders[n].1.single, sliders[n].1.number, sliders[n].1.text@),
        ),
    decreases n,
{
    if n > 0 {
        let rest = sliders.drop_first();
        assert(sliders[0].0@ != key);
        assert forall|i: int| 0 <= i < n - 1 implies (#[trigger] rest[i]).0@ != key by {
            assert(rest[i] == sliders[i + 1]);
        }
        a_slider_starts_where_it_stands(rest, key, n - 1);
    }
}

} // verus!
