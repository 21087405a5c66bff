//! How text is drawn: colours, formattings, and components made of them.
use vstd::prelude::*;

use crate::json::{a_field_reads_back, an_empty_object_has_nothing, docs, Doc, Json};
use crate::words::{cat3, dec, signed};

verus! {

/// A colour or a formatting, as the game numbers them.
#[derive(Clone, Copy, Debug, PartialEq, Eq, Structural)]
pub enum ChatFormatting {
    Black,
    DarkBlue,
    DarkGreen,
    DarkAqua,
    DarkRed,
    DarkPurple,
    Gold,
    Gray,
    DarkGray,
    Blue,
    Green,
    Aqua,
    Red,
    LightPurple,
    Yellow,
    White,
    Obfuscated,
    Bold,
    Strikethrough,
    Underline,
    Italic,
    Reset,
}

/// The number of a colour, and none of what is no colour: a formatting such as bold, or reset.
pub open spec fn colour_number(color: ChatFormatting) -> Option<nat> {
    match color {
        ChatFormatting::Black => Some(0nat),
        ChatFormatting::DarkBlue => Some(1nat),
        ChatFormatting::DarkGreen => Some(2nat),
        ChatFormatting::DarkAqua => Some(3nat),
        ChatFormatting::DarkRed => Some(4nat),
        ChatFormatting::DarkPurple => Some(5nat),
        ChatFormatting::Gold => Some(6nat),
        ChatFormatting::Gray => Some(7nat),
        ChatFormatting::DarkGray => Some(8nat),
        ChatFormatting::Blue => Some(9nat),
        ChatFormatting::Green => Some(10nat),
        ChatFormatting::Aqua => Some(11nat),
        ChatFormatting::Red => Some(12nat),
        ChatFormatting::LightPurple => Some(13nat),
        ChatFormatting::Yellow => Some(14nat),
        ChatFormatting::White => Some(15nat),
        _ => None,
    }
}

/// The name of a colour.
pub open spec fn colour_name(color: ChatFormatting) -> Seq<char> {
    match color {
        ChatFormatting::Black => "black"@,
        ChatFormatting::DarkBlue => "dark_blue"@,
        ChatFormatting::DarkGreen => "dark_green"@,
        ChatFormatting::DarkAqua => "dark_aqua"@,
        ChatFormatting::DarkRed => "dark_red"@,
        ChatFormatting::DarkPurple => "dark_purple"@,
        ChatFormatting::Gold => "gold"@,
        ChatFormatting::Gray => "gray"@,
        ChatFormatting::DarkGray => "dark_gray"@,
        ChatFormatting::Blue => "blue"@,
        ChatFormatting::Green => "green"@,
        ChatFormatting::Aqua => "aqua"@,
        ChatFormatting::Red => "red"@,
        ChatFormatting::LightPurple => "light_purple"@,
        ChatFormatting::Yellow => "yellow"@,
        ChatFormatting::White => "white"@,
        ChatFormatting::Obfuscated => "obfuscated"@,
        ChatFormatting::Bold => "bold"@,
        ChatFormatting::Strikethrough => "strikethrough"@,
        ChatFormatting::Underline => "underline"@,
        ChatFormatting::Italic => "italic"@,
        ChatFormatting::Reset => "reset"@,
    }
}

impl ChatFormatting {
    pub fn number(self) -> (r: Option<usize>)
        ensures
            match r {
                Some(n) => colour_number(self) == Some(n as nat) && n < 16,
                None => colour_number(self) is None,
            },
    {
        match self {
            ChatFormatting::Black => Some(0),
            ChatFormatting::DarkBlue => Some(1),
            ChatFormatting::DarkGreen => Some(2),
            ChatFormatting::DarkAqua => Some(3),
            ChatFormatting::DarkRed => Some(4),
            ChatFormatting::DarkPurple => Some(5),
            ChatFormatting::Gold => Some(6),
            ChatFormatting::Gray => Some(7),
            ChatFormatting::DarkGray => Some(8),
            ChatFormatting::Blue => Some(9),
            ChatFormatting::Green => Some(10),
            ChatFormatting::Aqua => Some(11),
            ChatFormatting::Red => Some(12),
            ChatFormatting::LightPurple => Some(13),
            ChatFormatting::Yellow => Some(14),
            ChatFormatting::White => Some(15),
            _ => None,
        }
    }

    pub fn name(self) -> (r: &'static str)
        ensures
            r@ == colour_name(self),
    {
        match self {
            ChatFormatting::Black => "black",
            ChatFormatting::DarkBlue => "dark_blue",
            ChatFormatting::DarkGreen => "dark_green",
            ChatFormatting::DarkAqua => "dark_aqua",
            ChatFormatting::DarkRed => "dark_red",
            ChatFormatting::DarkPurple => "dark_purple",
            ChatFormatting::Gold => "gold",
            ChatFormatting::Gray => "gray",
            ChatFormatting::DarkGray => "dark_gray",
            ChatFormatting::Blue => "blue",
            ChatFormatting::Green => "green",
            ChatFormatting::Aqua => "aqua",
            ChatFormatting::Red => "red",
            ChatFormatting::LightPurple => "light_purple",
            ChatFormatting::Yellow => "yellow",
            ChatFormatting::White => "white",
            ChatFormatting::Obfuscated => "obfuscated",
            ChatFormatting::Bold => "bold",
            ChatFormatting::Strikethrough => "strikethrough",
            ChatFormatting::Underline => "underline",
            ChatFormatting::Italic => "italic",
            ChatFormatting::Reset => "reset",
        }
    }
}

/// How a piece of text is drawn, as far as it says.
pub struct Style {
    pub color: Option<String>,
    pub bold: Option<bool>,
    pub italic: Option<bool>,
    pub underlined: Option<bool>,
    pub strikethrough: Option<bool>,
    pub obfuscated: Option<bool>,
    pub font: Option<String>,
}

pub struct StyleView {
    pub color: Option<Seq<char>>,
    pub bold: Option<bool>,
    pub italic: Option<bool>,
    pub underlined: Option<bool>,
    pub strikethrough: Option<bool>,
    pub obfuscated: Option<bool>,
    pub font: Option<Seq<char>>,
}

pub open spec fn text_of(text: Option<String>) -> Option<Seq<char>> {
    match text {
        Some(text) => Some(text@),
        None => None,
    }
}

impl View for Style {
    type V = StyleView;

    open spec fn view(&self) -> StyleView {
        StyleView {
            color: text_of(self.color),
            bold: self.bold,
            italic: self.italic,
            underlined: self.underlined,
            strikethrough: self.strikethrough,
            obfuscated: self.obfuscated,
            font: text_of(self.font),
        }
    }
}

pub open spec fn text_doc(text: Option<Seq<char>>) -> Option<Doc> {
    match text {
        Some(text) => Some(Doc::Text(text)),
        None => None,
    }
}

pub open spec fn flag_doc(flag: Option<bool>) -> Option<Doc> {
    match flag {
        Some(flag) => Some(Doc::Bool(flag)),
        None => None,
    }
}

impl StyleView {
    /// The style that says nothing.
    pub open spec fn plain() -> StyleView {
        StyleView {
            color: None,
            bold: None,
            italic: None,
            underlined: None,
            strikethrough: None,
            obfuscated: None,
            font: None,
        }
    }

    pub open spec fn coloured(color: Seq<char>) -> StyleView {
        StyleView { color: Some(color), ..StyleView::plain() }
    }

    /// The style a team's colour gives its names: the colour, or the formatting, or nothing.
    pub open spec fn of_team(color: ChatFormatting) -> StyleView {
        match color {
            ChatFormatting::Reset => StyleView::plain(),
            ChatFormatting::Obfuscated => StyleView {
                obfuscated: Some(true),
                ..StyleView::plain()
            },
            ChatFormatting::Bold => StyleView { bold: Some(true), ..StyleView::plain() },
            ChatFormatting::Strikethrough => StyleView {
                strikethrough: Some(true),
                ..StyleView::plain()
            },
            ChatFormatting::Underline => StyleView { underlined: Some(true), ..StyleView::plain() },
            ChatFormatting::Italic => StyleView { italic: Some(true), ..StyleView::plain() },
            _ => StyleView::coloured(colour_name(color)),
        }
    }

    /// A component with the fields of the style.
    pub open spec fn on(self, component: Doc) -> Doc {
        component.with_some("color"@, text_doc(self.color)).with_some(
            "bold"@,
            flag_doc(self.bold),
        ).with_some("italic"@, flag_doc(self.italic)).with_some(
            "underlined"@,
            flag_doc(self.underlined),
        ).with_some("strikethrough"@, flag_doc(self.strikethrough)).with_some(
            "obfuscated"@,
            flag_doc(self.obfuscated),
        ).with_some("font"@, text_doc(self.font))
    }
}

fn text_json(text: &Option<String>) -> (r: Option<Json>)
    ensures
        match r {
            Some(json) => text_doc(text_of(*text)) == Some(json@),
            None => text_doc(text_of(*text)) is None,
        },
{
    match text {
        Some(text) => Some(Json::Text(text.clone())),
        None => None,
    }
}

fn flag_json(flag: Option<bool>) -> (r: Option<Json>)
    ensures
        match r {
            Some(json) => flag_doc(flag) == Some(json@),
            None => flag_doc(flag) is None,
        },
{
    match flag {
        Some(flag) => Some(Json::Bool(flag)),
        None => None,
    }
}

impl Style {
    pub fn plain() -> (r: Style)
        ensures
            r@ == StyleView::plain(),
    {
        Style {
            color: None,
            bold: None,
            italic: None,
            underlined: None,
            strikethrough: None,
            obfuscated: None,
            font: None,
        }
    }

    pub fn coloured(color: ChatFormatting) -> (r: Style)
        ensures
            r@ == StyleView::coloured(colour_name(color)),
    {
        let mut style = Style::plain();
        style.color = Some(color.name().to_owned());
        style
    }

    /// The style a team's colour gives its names.
    pub fn of_team(color: ChatFormatting) -> (r: Style)
        ensures
            r@ == StyleView::of_team(color),
    {
        let mut style = Style::plain();
        match color {
            ChatFormatting::Reset => {},
            ChatFormatting::Obfuscated => {
                style.obfuscated = Some(true);
            },
            ChatFormatting::Bold => {
                style.bold = Some(true);
            },
            ChatFormatting::Strikethrough => {
                style.strikethrough = Some(true);
            },
            ChatFormatting::Underline => {
                style.underlined = Some(true);
            },
            ChatFormatting::Italic => {
                style.italic = Some(true);
            },
            _ => {
                style.color = Some(color.name().to_owned());
            },
        }
        style
    }

    fn is_plain(&self) -> (r: bool)
        ensures
            r == (self@ == StyleView::plain()),
    {
        self.color.is_none() && self.bold.is_none() && self.italic.is_none()
            && self.underlined.is_none() && self.strikethrough.is_none()
            && self.obfuscated.is_none() && self.font.is_none()
    }

    fn on(&self, component: Json) -> (r: Json)
        ensures
            r@ == self@.on(component@),
    {
        component.with_some("color", text_json(&self.color)).with_some(
            "bold",
            flag_json(self.bold),
        ).with_some("italic", flag_json(self.italic)).with_some(
            "underlined",
            flag_json(self.underlined),
        ).with_some("strikethrough", flag_json(self.strikethrough)).with_some(
            "obfuscated",
            flag_json(self.obfuscated),
        ).with_some("font", text_json(&self.font))
    }
}

/// The bytes of a style as a styled number format carries it: the flags as bytes, the colour and
/// the font by name.
pub struct StyleTag {
    pub color: Option<String>,
    pub bold: Option<i8>,
    pub italic: Option<i8>,
    pub underlined: Option<i8>,
    pub strikethrough: Option<i8>,
    pub obfuscated: Option<i8>,
    pub font: Option<String>,
}

/// A flag that was written as a byte.
pub open spec fn byte_flag(byte: Option<i8>) -> Option<bool> {
    match byte {
        Some(byte) => Some(byte != 0),
        None => None,
    }
}

fn flag_of(byte: Option<i8>) -> (r: Option<bool>)
    ensures
        r == byte_flag(byte),
{
    match byte {
        Some(byte) => Some(byte != 0),
        None => None,
    }
}

/// A style as a styled number format carries it, which is network NBT: the colour and the font by
/// name, and the flags as bytes. Nothing at all is the empty style.
pub fn nbt_style(tag: StyleTag) -> (r: Style)
    ensures
        r@ == (StyleView {
            color: text_of(tag.color),
            bold: byte_flag(tag.bold),
            italic: byte_flag(tag.italic),
            underlined: byte_flag(tag.underlined),
            strikethrough: byte_flag(tag.strikethrough),
            obfuscated: byte_flag(tag.obfuscated),
            font: text_of(tag.font),
        }),
{
    Style {
        color: tag.color,
        bold: flag_of(tag.bold),
        italic: flag_of(tag.italic),
        underlined: flag_of(tag.underlined),
        strikethrough: flag_of(tag.strikethrough),
        obfuscated: flag_of(tag.obfuscated),
        font: tag.font,
    }
}

/// A text in a style: bare where the style says nothing.
pub open spec fn styled_text(text: Seq<char>, style: StyleView) -> Doc {
    if style == StyleView::plain() {
        Doc::Text(text)
    } else {
        style.on(Doc::object().with("text"@, Doc::Text(text))).drawn(text)
    }
}

/// A score in a style.
pub fn styled(value: i32, style: &Style) -> (r: Json)
    ensures
        r@ == styled_text(dec(value as int), style@),
{
    let text = signed(value as i64);
    if style.is_plain() {
        Json::Text(text)
    } else {
        style.on(Json::object().with("text", Json::Text(text.clone()))).drawn(text)
    }
}

/// A name between what a team puts before and behind it, in the team's style.
pub open spec fn framed_name(style: StyleView, prefix: Doc, name: Doc, suffix: Doc) -> Doc {
    style.on(Doc::object().with("text"@, Doc::Text(Seq::empty()))).with(
        "extra"@,
        Doc::list(seq![prefix, name, suffix]),
    ).drawn(prefix.words() + name.words() + suffix.words())
}

pub fn framed(style: &Style, prefix: &Json, name: &Json, suffix: &Json) -> (r: Json)
    ensures
        r@ == framed_name(style@, prefix@, name@, suffix@),
{
    let mut extra: Vec<Json> = Vec::new();
    extra.push(prefix.copy());
    extra.push(name.copy());
    extra.push(suffix.copy());
    proof {
        reveal_strlit("");
        assert(""@ =~= Seq::empty());
        assert(docs(extra@) =~= seq![prefix@, name@, suffix@]);
    }
    let words = cat3(prefix.words().as_str(), name.words().as_str(), suffix.words().as_str());
    style.on(Json::object().with("text", Json::text(""))).with("extra", Json::list(extra)).drawn(
        words,
    )
}

/// The sixteen colours are numbered as the game numbers them, and a format is none.
pub proof fn the_colours_are_numbered(color: ChatFormatting)
    ensures
        colour_number(ChatFormatting::Black) == Some(0nat),
        colour_number(ChatFormatting::DarkRed) == Some(4nat),
        colour_number(ChatFormatting::Gold) == Some(6nat),
        colour_number(ChatFormatting::Gray) == Some(7nat),
        colour_number(ChatFormatting::Blue) == Some(9nat),
        colour_number(ChatFormatting::Green) == Some(10nat),
        colour_number(ChatFormatting::Red) == Some(12nat),
        colour_number(ChatFormatting::Yellow) == Some(14nat),
        colour_number(ChatFormatting::White) == Some(15nat),
        colour_number(color) matches Some(n) ==> n < 16,
        colour_number(ChatFormatting::Bold) is None && colour_number(ChatFormatting::Reset) is None
            && colour_number(ChatFormatting::Italic) is None,
        colour_name(ChatFormatting::Red) == "red"@ && colour_name(ChatFormatting::DarkRed)
            == "dark_red"@ && colour_name(ChatFormatting::Gold) == "gold"@ && colour_name(
            ChatFormatting::Yellow,
        ) == "yellow"@ && colour_name(ChatFormatting::LightPurple) == "light_purple"@ && colour_name(
            ChatFormatting::Aqua,
        ) == "aqua"@ && colour_name(ChatFormatting::Black) == "black"@ && colour_name(
            ChatFormatting::White,
        ) == "white"@ && colour_name(ChatFormatting::Green) == "green"@ && colour_name(
            ChatFormatting::Blue,
        ) == "blue"@ && colour_name(ChatFormatting::Gray) == "gray"@,
{
}

/// Two colours are never numbered alike.
pub proof fn no_two_colours_share_a_number(a: ChatFormatting, b: ChatFormatting)
    requires
        colour_number(a) is Some,
        colour_number(a) == colour_number(b),
    ensures
        a == b,
{
}

/// A team's colour colours its names, a format formats them, and reset leaves them plain.
pub proof fn a_teams_colour_is_on_its_names(color: ChatFormatting)
    ensures
        colour_number(color) is Some ==> StyleView::of_team(color).color == Some(colour_name(color))
            && StyleView::of_team(color).bold is None,
        StyleView::of_team(ChatFormatting::Bold).bold == Some(true) && StyleView::of_team(
            ChatFormatting::Bold,
        ).color is None,
        StyleView::of_team(ChatFormatting::Italic).italic == Some(true),
        StyleView::of_team(ChatFormatting::Underline).underlined == Some(true),
        StyleView::of_team(ChatFormatting::Strikethrough).strikethrough == Some(true),
        StyleView::of_team(ChatFormatting::Obfuscated).obfuscated == Some(true),
        StyleView::of_team(ChatFormatting::Reset) == StyleView::plain(),
{
}

/// A style is on a component under the names of what it sets, and sets nothing else.
pub proof fn a_style_is_on_its_component(style: StyleView, text: Seq<char>)
    ensures
        ({
            let on = style.on(Doc::object().with("text"@, Doc::Text(text)));
            &&& on.text_at("text"@) == Some(text)
            &&& style.color matches Some(color) ==> on.text_at("color"@) == Some(color)
            &&& style.color is None ==> on.at("color"@) is None
            &&& style.bold matches Some(flag) ==> on.bool_at("bold"@) == Some(flag)
            &&& style.bold is None ==> on.at("bold"@) is None
            &&& style.italic matches Some(flag) ==> on.bool_at("italic"@) == Some(flag)
            &&& style.underlined matches Some(flag) ==> on.bool_at("underlined"@) == Some(flag)
            &&& style.strikethrough matches Some(flag) ==> on.bool_at("strikethrough"@) == Some(flag)
            &&& style.obfuscated matches Some(flag) ==> on.bool_at("obfuscated"@) == Some(flag)
            &&& style.font matches Some(font) ==> on.text_at("font"@) == Some(font)
        }),
{
    broadcast use {a_field_reads_back, an_empty_object_has_nothing};
    reveal_strlit("text");
    reveal_strlit("color");
    reveal_strlit("bold");
    reveal_strlit("italic");
    reveal_strlit("underlined");
    reveal_strlit("strikethrough");
    reveal_strlit("obfuscated");
    reveal_strlit("font");
    assert("text"@.len() == 4);
    assert("color"@.len() == 5);
    assert("bold"@.len() == 4);
    assert("italic"@.len() == 6);
    assert("underlined"@.len() == 10);
    assert("strikethrough"@.len() == 13);
    assert("obfuscated"@.len() == 10);
    assert("font"@.len() == 4);
    assert("text"@[0] != "bold"@[0]);
    assert("text"@[0] != "font"@[0]);
    assert("bold"@[0] != "font"@[0]);
    assert("underlined"@[0] != "obfuscated"@[0]);
}

/// A name on a team reads its prefix, the name and its suffix, in that order; a text in a style reads the
/// text.
pub proof fn a_name_reads_between_its_prefix_and_suffix(
    style: StyleView,
    prefix: Doc,
    name: Doc,
    suffix: Doc,
    text: Seq<char>,
)
    ensures
        framed_name(style, prefix, name, suffix).words() == prefix.words() + name.words()
            + suffix.words(),
        styled_text(text, style).words() == text,
        styled_text(text, StyleView::plain()) == Doc::Text(text),
{
    broadcast use {a_field_reads_back, an_empty_object_has_nothing};
    still_an_object(style, Doc::object().with("text"@, Doc::Text(Seq::empty())));
    still_an_object(style, Doc::object().with("text"@, Doc::Text(text)));
}

proof fn still_an_object(style: StyleView, component: Doc)
    requires
        component is Object,
    ensures
        style.on(component) is Object,
{
}

/// A byte that is not nothing is a flag that is set.
pub proof fn a_byte_is_a_flag(byte: i8)
    ensures
        byte_flag(Some(byte)) == Some(byte != 0),
        byte_flag(None) is None,
{
}

} // verus!
