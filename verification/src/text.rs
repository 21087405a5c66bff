//! What a component reads as: the glyphs a server draws a screen with taken out, and the wordings a
//! pattern can be written against.
use vstd::prelude::*;

use crate::json::{a_field_reads_back, an_empty_object_has_nothing, docs, Doc, Json};
use crate::pattern::{expression_found, Pattern};
use crate::words::{cat2, cat4, is_white, join, joined, letters, same, spell, texts, white};

verus! {

/// One leaf of a component, with the font and colour it is drawn in: its own, or inherited.
pub struct Leaf {
    pub text: String,
    pub font: Option<String>,
    pub color: Option<String>,
}

/// Whether a character lies in a private use area, where a resource pack puts the glyphs it draws a
/// screen out of.
pub open spec fn is_glyph(c: char) -> bool {
    '\u{E000}' <= c <= '\u{F8FF}' || '\u{F0000}' <= c <= '\u{10FFFF}'
}

fn glyph(c: char) -> (r: bool)
    ensures
        r == is_glyph(c),
{
    ('\u{E000}' <= c && c <= '\u{F8FF}') || ('\u{F0000}' <= c && c <= '\u{10FFFF}')
}

/// Whether a character after a § makes the two a colour or formatting code.
pub open spec fn is_colour_code(c: char) -> bool {
    ||| '0' <= c <= '9'
    ||| 'a' <= c <= 'f'
    ||| 'A' <= c <= 'F'
    ||| 'k' <= c <= 'o'
    ||| 'K' <= c <= 'O'
    ||| c == 'r'
    ||| c == 'R'
}

fn colour_code(c: char) -> (r: bool)
    ensures
        r == is_colour_code(c),
{
    ('0' <= c && c <= '9') || ('a' <= c && c <= 'f') || ('A' <= c && c <= 'F') || ('k' <= c && c
        <= 'o') || ('K' <= c && c <= 'O') || c == 'r' || c == 'R'
}

/// Whether a character is blank the way Java means it: white space, but for the no-break spaces,
/// which a screen uses precisely because they are not, and for the next-line control, and with the
/// four separators.
pub open spec fn is_blank_char(c: char) -> bool {
    if c == '\u{85}' || c == '\u{A0}' || c == '\u{2007}' || c == '\u{202F}' {
        false
    } else if '\u{1C}' <= c <= '\u{1F}' {
        true
    } else {
        white(c)
    }
}

/// Whether there is nothing in a text but blanks.
pub open spec fn is_blank(text: Seq<char>) -> bool {
    forall|i: int| 0 <= i < text.len() ==> is_blank_char(#[trigger] text[i])
}

fn blank(text: &str) -> (r: bool)
    ensures
        r == is_blank(text@),
{
    let all = letters(text);
    let mut i: usize = 0;
    while i < all.len()
        invariant
            i <= all@.len(),
            all@ == text@,
            forall|k: int| 0 <= k < i ==> is_blank_char(#[trigger] text@[k]),
        decreases all@.len() - i,
    {
        let c = all[i];
        let empty: bool = if c == '\u{85}' || c == '\u{A0}' || c == '\u{2007}' || c
            == '\u{202F}' {
            false
        } else if '\u{1C}' <= c && c <= '\u{1F}' {
            true
        } else {
            is_white(c)
        };
        if !empty {
            proof {
                assert(!is_blank_char(text@[i as int]));
            }
            return false;
        }
        i += 1;
    }
    true
}

/// A text with the glyphs taken out.
pub open spec fn unglyphed(text: Seq<char>) -> Seq<char>
    decreases text.len(),
{
    if text.len() == 0 {
        text
    } else if is_glyph(text.last()) {
        unglyphed(text.drop_last())
    } else {
        unglyphed(text.drop_last()).push(text.last())
    }
}

fn without_glyphs(text: &str) -> (r: Vec<char>)
    ensures
        r@ == unglyphed(text@),
{
    let all = letters(text);
    let mut out: Vec<char> = Vec::new();
    let mut i: usize = 0;
    proof {
        assert(out@ =~= unglyphed(text@.take(0)));
    }
    while i < all.len()
        invariant
            i <= all@.len(),
            all@ == text@,
            out@ == unglyphed(text@.take(i as int)),
        decreases all@.len() - i,
    {
        proof {
            assert(text@.take(i as int + 1).drop_last() =~= text@.take(i as int));
        }
        if !glyph(all[i]) {
            out.push(all[i]);
        }
        i += 1;
    }
    proof {
        assert(text@.take(text@.len() as int) =~= text@);
    }
    out
}

/// A text with the legacy colour codes taken out, from the left.
pub open spec fn uncoloured(text: Seq<char>) -> Seq<char>
    decreases text.len(),
{
    if text.len() == 0 {
        text
    } else if text[0] == '\u{A7}' && text.len() > 1 && is_colour_code(text[1]) {
        uncoloured(text.skip(2))
    } else {
        seq![text[0]] + uncoloured(text.skip(1))
    }
}

/// What a text reads as once nothing that only positions or colours it is left.
pub open spec fn readable_of(text: Seq<char>) -> Seq<char> {
    uncoloured(unglyphed(text))
}

/// The text with the glyphs taken out, and then the legacy colour codes: what a line reads as once
/// nothing that only positions or colours it is left.
pub fn readable(text: &str) -> (r: String)
    ensures
        r@ == readable_of(text@),
{
    let all = without_glyphs(text);
    let mut out: String = String::new();
    let mut i: usize = 0;
    proof {
        reveal_strlit("");
        assert(all@.skip(0) =~= all@);
        assert(out@ + uncoloured(all@.skip(0)) =~= uncoloured(all@));
    }
    while i < all.len()
        invariant
            i <= all@.len(),
            out@ + uncoloured(all@.skip(i as int)) == uncoloured(all@),
        decreases all@.len() - i,
    {
        let ghost rest = all@.skip(i as int);
        let ghost held = out@;
        if all[i] == '\u{A7}' && i + 1 < all.len() && colour_code(all[i + 1]) {
            proof {
                assert(rest[0] == all@[i as int] && rest[1] == all@[i as int + 1]);
                assert(rest.skip(2) =~= all@.skip(i as int + 2));
            }
            i += 2;
        } else {
            out.push(all[i]);
            proof {
                assert(rest.skip(1) =~= all@.skip(i as int + 1));
                assert(out@ + uncoloured(rest.skip(1)) =~= held + uncoloured(rest));
            }
            i += 1;
        }
    }
    proof {
        assert(all@.skip(all@.len() as int) =~= Seq::<char>::empty());
        assert(out@ + Seq::<char>::empty() =~= out@);
    }
    out
}

/// No glyph is left in what a text reads as, and nothing is in it that was not in the text.
pub proof fn nothing_drawn_is_left(text: Seq<char>)
    ensures
        forall|i: int|
            0 <= i < readable_of(text).len() ==> !is_glyph(#[trigger] readable_of(text)[i])
                && text.contains(readable_of(text)[i]),
        readable_of(text).len() <= text.len(),
{
    unglyphed_has_no_glyph(text);
    uncoloured_takes_only_out(unglyphed(text));
    assert forall|i: int| 0 <= i < readable_of(text).len() implies !is_glyph(
        #[trigger] readable_of(text)[i],
    ) && text.contains(readable_of(text)[i]) by {
        assert(unglyphed(text).contains(readable_of(text)[i]));
        let at = unglyphed(text).index_of(readable_of(text)[i]);
        assert(unglyphed(text)[at] == readable_of(text)[i]);
    }
}

proof fn unglyphed_has_no_glyph(text: Seq<char>)
    ensures
        forall|i: int|
            0 <= i < unglyphed(text).len() ==> !is_glyph(#[trigger] unglyphed(text)[i])
                && text.contains(unglyphed(text)[i]),
        unglyphed(text).len() <= text.len(),
    decreases text.len(),
{
    if text.len() > 0 {
        unglyphed_has_no_glyph(text.drop_last());
        assert forall|i: int| 0 <= i < unglyphed(text).len() implies !is_glyph(
            #[trigger] unglyphed(text)[i],
        ) && text.contains(unglyphed(text)[i]) by {
            let before = unglyphed(text.drop_last());
            if i < before.len() {
                assert(unglyphed(text)[i] == before[i]);
                assert(text.drop_last().contains(before[i]));
                let at = text.drop_last().index_of(before[i]);
                assert(text[at] == before[i]);
            } else {
                assert(text[text.len() - 1] == unglyphed(text)[i]);
            }
        }
    }
}

proof fn uncoloured_takes_only_out(text: Seq<char>)
    ensures
        forall|i: int|
            0 <= i < uncoloured(text).len() ==> text.contains(#[trigger] uncoloured(text)[i]),
        uncoloured(text).len() <= text.len(),
    decreases text.len(),
{
    if text.len() > 0 {
        let n: int = if text[0] == '\u{A7}' && text.len() > 1 && is_colour_code(text[1]) {
            2
        } else {
            1
        };
        let rest = text.skip(n);
        uncoloured_takes_only_out(rest);
        assert forall|i: int| 0 <= i < uncoloured(text).len() implies text.contains(
            #[trigger] uncoloured(text)[i],
        ) by {
            let c = uncoloured(text)[i];
            if n == 1 && i == 0 {
                assert(text[0] == c);
            } else {
                let j = if n == 1 {
                    i - 1
                } else {
                    i
                };
                assert(c == uncoloured(rest)[j]);
                assert(rest.contains(c));
                let at = rest.index_of(c);
                assert(text[at + n] == c);
            }
        }
    }
}

/// A text with neither a glyph nor a § in it reads as it stands.
pub proof fn plain_text_reads_as_it_stands(text: Seq<char>)
    requires
        forall|i: int| 0 <= i < text.len() ==> !is_glyph(#[trigger] text[i]) && text[i] != '\u{A7}',
    ensures
        readable_of(text) == text,
{
    keeps_all(text);
    keeps_colours(text);
}

proof fn keeps_all(text: Seq<char>)
    requires
        forall|i: int| 0 <= i < text.len() ==> !is_glyph(#[trigger] text[i]),
    ensures
        unglyphed(text) == text,
    decreases text.len(),
{
    if text.len() > 0 {
        keeps_all(text.drop_last());
        assert(text.drop_last().push(text.last()) =~= text);
    }
}

proof fn keeps_colours(text: Seq<char>)
    requires
        forall|i: int| 0 <= i < text.len() ==> #[trigger] text[i] != '\u{A7}',
    ensures
        uncoloured(text) == text,
    decreases text.len(),
{
    if text.len() > 0 {
        keeps_colours(text.skip(1));
        assert(seq![text[0]] + text.skip(1) =~= text);
    }
}

/// Whether a leaf is blank once its glyphs are gone, and was not as short before: a position on the
/// screen, not text.
pub open spec fn is_spacer(readable: Seq<char>, raw: Seq<char>) -> bool {
    is_blank(readable) && readable.len() != raw.len()
}

fn spacer(readable: &str, raw: &str) -> (r: bool)
    ensures
        r == is_spacer(readable@, raw@),
{
    blank(readable) && letters(readable).len() != letters(raw).len()
}

/// A font by its full name, and none for the default one, which is what names no label.
pub open spec fn font_of(font: Option<Seq<char>>) -> Option<Seq<char>> {
    match font {
        Some(font) => {
            let named = if font.contains(':') {
                font
            } else {
                "minecraft:"@ + font
            };
            if named != "minecraft:default"@ {
                Some(named)
            } else {
                None
            }
        },
        None => None,
    }
}

/// Where a character first stands in a text.
fn first_colon(all: &Vec<char>) -> (r: Option<usize>)
    ensures
        match r {
            Some(at) => at < all@.len() && all@[at as int] == ':' && forall|k: int|
                0 <= k < at ==> all@[k] != ':',
            None => !all@.contains(':'),
        },
{
    let mut i: usize = 0;
    while i < all.len()
        invariant
            i <= all@.len(),
            forall|k: int| 0 <= k < i ==> all@[k] != ':',
        decreases all@.len() - i,
    {
        if all[i] == ':' {
            return Some(i);
        }
        i += 1;
    }
    None
}

fn font(given: Option<&str>) -> (r: Option<String>)
    ensures
        match r {
            Some(name) => font_of(
                match given {
                    Some(font) => Some(font@),
                    None => None,
                },
            ) == Some(name@),
            None => font_of(
                match given {
                    Some(font) => Some(font@),
                    None => None,
                },
            ) is None,
        },
{
    match given {
        Some(font) => {
            let all = letters(font);
            let named = if first_colon(&all).is_some() {
                font.to_owned()
            } else {
                cat2("minecraft:", font)
            };
            if same(named.as_str(), "minecraft:default") {
                None
            } else {
                Some(named)
            }
        },
        None => None,
    }
}

/// A text that may be missing.
pub open spec fn text_of(text: Option<String>) -> Option<Seq<char>> {
    match text {
        Some(text) => Some(text@),
        None => None,
    }
}

pub open spec fn text_doc(text: Option<Seq<char>>) -> Option<Doc> {
    match text {
        Some(text) => Some(Doc::Text(text)),
        None => None,
    }
}

/// The piece a leaf is drawn as, where there is something to read in it.
pub open spec fn segment_of(leaf: Leaf) -> Option<Doc> {
    let readable = unglyphed(leaf.text@);
    if readable.len() == 0 || is_spacer(readable, leaf.text@) {
        None
    } else {
        Some(
            Doc::object().with("text"@, Doc::Text(readable)).with_some(
                "font"@,
                text_doc(font_of(text_of(leaf.font))),
            ).with_some("color"@, text_doc(text_of(leaf.color))),
        )
    }
}

/// The pieces a component is drawn from.
pub open spec fn segments_of(leaves: Seq<Leaf>) -> Seq<Doc>
    decreases leaves.len(),
{
    if leaves.len() == 0 {
        Seq::empty()
    } else {
        match segment_of(leaves.last()) {
            Some(segment) => segments_of(leaves.drop_last()).push(segment),
            None => segments_of(leaves.drop_last()),
        }
    }
}

/// The pieces a component is drawn from, with the glyphs taken out.
///
/// A server draws a HUD by stacking a bar glyph, a spacer and a label. The glyphs are private use
/// area codepoints that mean nothing as text, and a spacer with them removed holds whitespace and
/// nothing else: a position on the screen rather than something to read, so it is not a segment.
/// A piece that was only ever a space is text, though: a chat line built as "Cleared 0", a space and
/// "[Track]" read "Cleared 0[Track]" while the screen showed the gap.
///
/// What is left is not trimmed. "Mana " and "Mana" are different pieces, and a server that writes
/// a label and a number as two components puts the space in one of them.
pub fn segments(leaves: &Vec<Leaf>) -> (r: Json)
    ensures
        r@ == Doc::list(segments_of(leaves@)),
{
    let mut out: Vec<Json> = Vec::new();
    let mut i: usize = 0;
    proof {
        assert(docs(out@) =~= segments_of(leaves@.take(0)));
    }
    while i < leaves.len()
        invariant
            i <= leaves@.len(),
            docs(out@) == segments_of(leaves@.take(i as int)),
        decreases leaves@.len() - i,
    {
        let ghost before = out@;
        proof {
            assert(leaves@.take(i as int + 1).drop_last() =~= leaves@.take(i as int));
        }
        let leaf = &leaves[i];
        let kept = without_glyphs(leaf.text.as_str());
        let readable = spell(&kept, 0, kept.len());
        proof {
            assert(kept@.subrange(0, kept@.len() as int) =~= kept@);
        }
        if kept.len() != 0 && !spacer(readable.as_str(), leaf.text.as_str()) {
            let named = font(
                match &leaf.font {
                    Some(font) => Some(font.as_str()),
                    None => None,
                },
            );
            let label = match named {
                Some(font) => Some(Json::Text(font)),
                None => None,
            };
            let color = match &leaf.color {
                Some(color) => Some(Json::Text(color.clone())),
                None => None,
            };
            out.push(
                Json::object().with("text", Json::Text(readable)).with_some("font", label).with_some(
                    "color",
                    color,
                ),
            );
            proof {
                assert(docs(out@) =~= docs(before).push(out@.last()@));
            }
        }
        i += 1;
    }
    proof {
        assert(leaves@.take(leaves@.len() as int) =~= leaves@);
    }
    Json::list(out)
}

/// A leaf as it reads with its font, where there is something to read in it.
pub open spec fn piece_of(leaf: Leaf) -> Option<(Seq<char>, Option<Seq<char>>)> {
    let text = readable_of(leaf.text@);
    if text.len() == 0 || is_spacer(text, leaf.text@) {
        None
    } else {
        Some((text, text_of(leaf.font)))
    }
}

/// The leaves of a component that read as something.
pub open spec fn pieces_of(leaves: Seq<Leaf>) -> Seq<(Seq<char>, Option<Seq<char>>)>
    decreases leaves.len(),
{
    if leaves.len() == 0 {
        Seq::empty()
    } else {
        match piece_of(leaves.last()) {
            Some(piece) => pieces_of(leaves.drop_last()).push(piece),
            None => pieces_of(leaves.drop_last()),
        }
    }
}

/// Whether some piece has a font.
pub open spec fn labelled(pieces: Seq<(Seq<char>, Option<Seq<char>>)>) -> bool {
    exists|i: int| 0 <= i < pieces.len() && (#[trigger] pieces[i]).1 is Some
}

/// The pieces one after the other.
pub open spec fn run_together(pieces: Seq<(Seq<char>, Option<Seq<char>>)>) -> Seq<char>
    decreases pieces.len(),
{
    if pieces.len() == 0 {
        Seq::empty()
    } else {
        run_together(pieces.drop_last()) + pieces.last().0
    }
}

/// A font's name without its namespace.
pub open spec fn short_font(font: Seq<char>) -> Seq<char>
    decreases font.len(),
{
    if !font.contains(':') {
        font
    } else {
        after_colon(font)
    }
}

/// What stands behind the first colon of a text that has one.
pub open spec fn after_colon(text: Seq<char>) -> Seq<char>
    decreases text.len(),
{
    if text.len() == 0 {
        text
    } else if text[0] == ':' {
        text.skip(1)
    } else {
        after_colon(text.skip(1))
    }
}

/// A piece with its label.
pub open spec fn labelled_piece(piece: (Seq<char>, Option<Seq<char>>)) -> Seq<char> {
    match piece.1 {
        Some(font) => "["@ + short_font(font) + "] "@ + piece.0,
        None => piece.0,
    }
}

/// The pieces that are not blank, each with its label.
pub open spec fn labelled_pieces(pieces: Seq<(Seq<char>, Option<Seq<char>>)>) -> Seq<Seq<char>>
    decreases pieces.len(),
{
    if pieces.len() == 0 {
        Seq::empty()
    } else if is_blank(pieces.last().0) {
        labelled_pieces(pieces.drop_last())
    } else {
        labelled_pieces(pieces.drop_last()).push(labelled_piece(pieces.last()))
    }
}

/// A line as a tool shows it: each leaf with the glyphs and colour codes taken out and dropped when
/// nothing readable is left; then, when no piece has a font, the pieces run together as drawn, and
/// when one does, each piece that is not blank with its label, joined with " | ". A component with
/// nothing readable in it shows as the text it reads.
pub open spec fn shown_as(leaves: Seq<Leaf>, raw: Seq<char>) -> Seq<char> {
    let pieces = pieces_of(leaves);
    if pieces.len() == 0 {
        raw
    } else if !labelled(pieces) {
        run_together(pieces)
    } else {
        joined(labelled_pieces(pieces), " | "@)
    }
}

/// The view of a list of pieces.
pub open spec fn piece_views(list: Seq<(String, Option<String>)>) -> Seq<
    (Seq<char>, Option<Seq<char>>),
> {
    Seq::new(list.len(), |i: int| (list[i].0@, text_of(list[i].1)))
}

fn pieces(leaves: &Vec<Leaf>) -> (r: Vec<(String, Option<String>)>)
    ensures
        piece_views(r@) == pieces_of(leaves@),
{
    let mut out: Vec<(String, Option<String>)> = Vec::new();
    let mut i: usize = 0;
    proof {
        assert(piece_views(out@) =~= pieces_of(leaves@.take(0)));
    }
    while i < leaves.len()
        invariant
            i <= leaves@.len(),
            piece_views(out@) == pieces_of(leaves@.take(i as int)),
        decreases leaves@.len() - i,
    {
        let ghost before = out@;
        proof {
            assert(leaves@.take(i as int + 1).drop_last() =~= leaves@.take(i as int));
        }
        let leaf = &leaves[i];
        let text = readable(leaf.text.as_str());
        if letters(text.as_str()).len() != 0 && !spacer(text.as_str(), leaf.text.as_str()) {
            let font = match &leaf.font {
                Some(font) => Some(font.clone()),
                None => None,
            };
            out.push((text, font));
            proof {
                assert(piece_views(out@) =~= piece_views(before).push(
                    (out@.last().0@, text_of(out@.last().1)),
                ));
            }
        }
        i += 1;
    }
    proof {
        assert(leaves@.take(leaves@.len() as int) =~= leaves@);
    }
    out
}

/// A font's name without its namespace.
fn font_label(font: &str) -> (r: String)
    ensures
        r@ == short_font(font@),
{
    let all = letters(font);
    match first_colon(&all) {
        Some(at) => {
            proof {
                assert(all@[at as int] == ':');
                behind_the_first(all@, at as int);
                assert(all@.subrange(at as int + 1, all@.len() as int) =~= all@.skip(at as int + 1));
            }
            let end: usize = all.len();
            spell(&all, at + 1, end)
        },
        None => font.to_owned(),
    }
}

proof fn behind_the_first(text: Seq<char>, at: int)
    requires
        0 <= at < text.len(),
        text[at] == ':',
        forall|k: int| 0 <= k < at ==> text[k] != ':',
    ensures
        after_colon(text) == text.skip(at + 1),
    decreases text.len(),
{
    if at > 0 {
        assert forall|k: int| 0 <= k < at - 1 implies text.skip(1)[k] != ':' by {
            assert(text[k + 1] != ':');
        }
        behind_the_first(text.skip(1), at - 1);
        assert(text.skip(1).skip(at) =~= text.skip(at + 1));
    }
}

fn shown(leaves: &Vec<Leaf>, raw: &str) -> (r: String)
    ensures
        r@ == shown_as(leaves@, raw@),
{
    let all = pieces(leaves);
    let ghost views = pieces_of(leaves@);
    proof {
        assert(piece_views(all@).len() == all@.len());
    }
    if all.len() == 0 {
        return raw.to_owned();
    }
    let mut fonts: bool = false;
    let mut together: String = String::new();
    let mut list: Vec<String> = Vec::new();
    let mut i: usize = 0;
    proof {
        reveal_strlit("");
        assert(together@ =~= run_together(views.take(0)));
        assert(texts(list@) =~= labelled_pieces(views.take(0)));
    }
    while i < all.len()
        invariant
            i <= all@.len(),
            views == pieces_of(leaves@),
            piece_views(all@) == views,
            all@.len() == views.len(),
            fonts == exists|k: int| 0 <= k < i && (#[trigger] views[k]).1 is Some,
            together@ == run_together(views.take(i as int)),
            texts(list@) == labelled_pieces(views.take(i as int)),
        decreases all@.len() - i,
    {
        let ghost before = list@;
        proof {
            assert(views.take(i as int + 1).drop_last() =~= views.take(i as int));
            assert(piece_views(all@)[i as int] == (all@[i as int].0@, text_of(all@[i as int].1)));
        }
        together.append(all[i].0.as_str());
        let is_empty: bool = blank(all[i].0.as_str());
        let label: String = match &all[i].1 {
            Some(font) => {
                fonts = true;
                proof {
                    assert(views[i as int].1 is Some);
                }
                cat4("[", font_label(font.as_str()).as_str(), "] ", all[i].0.as_str())
            },
            None => all[i].0.clone(),
        };
        if !is_empty {
            list.push(label);
            proof {
                assert(texts(list@) =~= texts(before).push(label@));
            }
        }
        i += 1;
    }
    proof {
        assert(views.take(views.len() as int) =~= views);
    }
    if fonts {
        join(&list, " | ")
    } else {
        together
    }
}

/// A line in the three wordings a pattern can be written against.
///
/// A caller writes a pattern from what a tool showed, and a tool shows a line with the glyphs and
/// colour codes taken out and a label in front of each piece drawn in a font of its own; a pattern
/// written before there were labels matched the plain text, and one pasted from the wire holds the
/// glyphs themselves. A pattern that matches any of the three matches the line.
pub struct Line {
    /// The text as the component reads, glyphs and all.
    pub raw: String,
    /// With the glyphs and the colour codes taken out.
    pub readable: String,
    /// As a tool shows it.
    pub shown: String,
}

impl Line {
    /// The line a component is, given as what it reads and the leaves it is drawn from.
    pub fn of(leaves: &Vec<Leaf>, raw: String) -> (r: Line)
        ensures
            r.raw == raw,
            r.readable@ == readable_of(raw@),
            r.shown@ == shown_as(leaves@, raw@),
    {
        Line { readable: readable(raw.as_str()), shown: shown(leaves, raw.as_str()), raw }
    }

    /// A line that reads one way only: a sound's or a particle's id.
    pub fn plain(id: String) -> (r: Line)
        ensures
            r.raw@ == id@,
            r.readable@ == id@,
            r.shown@ == id@,
    {
        Line { raw: id.clone(), readable: id.clone(), shown: id }
    }

    /// Whether an expression is found in one of the wordings.
    pub open spec fn found(&self, expression: Seq<char>) -> bool {
        ||| expression_found(expression, self.shown@)
        ||| expression_found(expression, self.readable@)
        ||| expression_found(expression, self.raw@)
    }

    pub fn matches(&self, pattern: &Pattern) -> (r: bool)
        ensures
            r == self.found(pattern.expression()),
    {
        pattern.is_match(self.shown.as_str()) || pattern.is_match(self.readable.as_str())
            || pattern.is_match(self.raw.as_str())
    }
}

/// What the pieces of a line are: what reads in each, with its font where it is not the default and its
/// colour; a leaf that only positions is none.
pub proof fn a_piece_has_its_font_and_colour(leaf: Leaf)
    ensures
        ({
            let readable = unglyphed(leaf.text@);
            &&& readable.len() == 0 ==> segment_of(leaf) is None
            &&& is_blank(readable) && readable.len() != leaf.text@.len() ==> segment_of(leaf) is None
            &&& readable.len() > 0 && !is_blank(readable) ==> (segment_of(leaf) matches Some(told) && {
                &&& told.text_at("text"@) == Some(readable)
                &&& leaf.color matches Some(color) ==> told.text_at("color"@) == Some(color@)
                &&& leaf.color is None ==> told.at("color"@) is None
                &&& leaf.font is None ==> told.at("font"@) is None
                &&& leaf.font matches Some(font) ==> (font@ == "minecraft:default"@ && font@.contains(
                    ':',
                ) ==> told.at("font"@) is None) && (font@.contains(':') && font@
                    != "minecraft:default"@ ==> told.text_at("font"@) == Some(font@))
            })
            &&& readable.len() > 0 && readable.len() == leaf.text@.len() ==> segment_of(leaf) is Some
        }),
{
    broadcast use {a_field_reads_back, an_empty_object_has_nothing};
    reveal_strlit("text");
    reveal_strlit("font");
    reveal_strlit("color");
    assert("text"@.len() == 4);
    assert("font"@.len() == 4);
    assert("color"@.len() == 5);
    assert("text"@[0] != "font"@[0]);
}

/// The pieces come in the order of the leaves.
pub proof fn the_pieces_come_in_order(leaves: Seq<Leaf>, leaf: Leaf)
    ensures
        segment_of(leaf) matches Some(told) ==> segments_of(leaves.push(leaf)) == segments_of(
            leaves,
        ).push(told),
        segment_of(leaf) is None ==> segments_of(leaves.push(leaf)) == segments_of(leaves),
        piece_of(leaf) matches Some(piece) ==> pieces_of(leaves.push(leaf)) == pieces_of(leaves).push(
            piece,
        ),
        piece_of(leaf) is None ==> pieces_of(leaves.push(leaf)) == pieces_of(leaves),
{
    assert(leaves.push(leaf).drop_last() =~= leaves);
}

/// What a piece reads, and the font it is labelled with; one that only positions is dropped.
pub proof fn a_piece_reads_without_glyphs_and_colours(leaf: Leaf)
    ensures
        ({
            let text = readable_of(leaf.text@);
            &&& text.len() == 0 ==> piece_of(leaf) is None
            &&& is_blank(text) && text.len() != leaf.text@.len() ==> piece_of(leaf) is None
            &&& text.len() > 0 && !is_blank(text) ==> (piece_of(leaf) matches Some(piece) && piece.0
                == text && (leaf.font matches Some(font) ==> piece.1 == Some(font@)) && (
            leaf.font is None ==> piece.1 is None))
        }),
{
}

/// How a line is shown: as it reads where nothing in it does, its pieces run together where none has a
/// font, and otherwise each behind its label, those that are blank left out.
pub proof fn a_line_is_shown_by_its_pieces(
    leaves: Seq<Leaf>,
    raw: Seq<char>,
    text: Seq<char>,
    font: Seq<char>,
    pieces: Seq<(Seq<char>, Option<Seq<char>>)>,
)
    ensures
        pieces_of(leaves).len() == 0 ==> shown_as(leaves, raw) == raw,
        pieces_of(leaves).len() > 0 && (forall|i: int|
            0 <= i < pieces_of(leaves).len() ==> (#[trigger] pieces_of(leaves)[i]).1 is None)
            ==> shown_as(leaves, raw) == run_together(pieces_of(leaves)),
        (exists|i: int|
            0 <= i < pieces_of(leaves).len() && (#[trigger] pieces_of(leaves)[i]).1 is Some)
            ==> shown_as(leaves, raw) == joined(labelled_pieces(pieces_of(leaves)), " | "@),
        labelled_piece((text, None)) == text,
        labelled_piece((text, Some(font))) == "["@ + short_font(font) + "] "@ + text,
        run_together(pieces.push((text, None))) == run_together(pieces) + text,
        is_blank(text) ==> labelled_pieces(pieces.push((text, None))) == labelled_pieces(pieces),
        !is_blank(text) ==> labelled_pieces(pieces.push((text, None))) == labelled_pieces(pieces).push(
            text,
        ),
{
    assert(pieces.push((text, None)).drop_last() =~= pieces);
}

/// A font is labelled by what stands behind its first colon.
pub proof fn a_font_is_labelled_without_its_namespace(space: Seq<char>, name: Seq<char>)
    requires
        !space.contains(':'),
    ensures
        short_font(space + seq![':'] + name) == name,
        !name.contains(':') ==> short_font(name) == name,
    decreases space.len(),
{
    let whole = space + seq![':'] + name;
    assert(whole[space.len() as int] == ':');
    behind_the_colon(space, name);
}

proof fn behind_the_colon(space: Seq<char>, name: Seq<char>)
    requires
        !space.contains(':'),
    ensures
        after_colon(space + seq![':'] + name) == name,
    decreases space.len(),
{
    let whole = space + seq![':'] + name;
    if space.len() == 0 {
        assert(whole.skip(1) =~= name);
    } else {
        assert(space.contains(space[0]));
        let rest = space.drop_first();
        assert(!rest.contains(':')) by {
            if rest.contains(':') {
                let i = rest.index_of(':');
                assert(space[i + 1] == ':');
            }
        }
        behind_the_colon(rest, name);
        assert(whole.skip(1) =~= rest + seq![':'] + name);
    }
}

/// The glyphs are the private use areas, the codes that colour and format are those the game knows, and
/// a blank is what Java takes for one.
pub proof fn what_is_drawn_and_what_is_read(c: char)
    ensures
        is_glyph(c) <==> '\u{E000}' <= c <= '\u{F8FF}' || c >= '\u{F0000}',
        is_colour_code('7') && is_colour_code('a') && is_colour_code('F') && is_colour_code('l')
            && is_colour_code('r') && is_colour_code('R'),
        !is_colour_code('x') && !is_colour_code('g') && !is_colour_code('p') && !is_colour_code(' '),
        is_blank_char(' ') && is_blank_char('\t') && is_blank_char('\n') && is_blank_char('\u{1C}')
            && is_blank_char('\u{3000}'),
        !is_blank_char('\u{A0}') && !is_blank_char('\u{2007}') && !is_blank_char('\u{202F}')
            && !is_blank_char('\u{85}') && !is_blank_char('a'),
{
}

/// A colour code is taken out with the character that follows it, and everything else stays.
pub proof fn a_colour_code_is_taken_out(c: char, rest: Seq<char>)
    ensures
        is_colour_code(c) ==> uncoloured(seq!['\u{A7}', c] + rest) == uncoloured(rest),
        c != '\u{A7}' ==> uncoloured(seq![c] + rest) == seq![c] + uncoloured(rest),
        is_glyph(c) ==> unglyphed(rest.push(c)) == unglyphed(rest),
        !is_glyph(c) ==> unglyphed(rest.push(c)) == unglyphed(rest).push(c),
{
    let coded = seq!['\u{A7}', c] + rest;
    assert(coded.skip(2) =~= rest);
    let plain = seq![c] + rest;
    assert(plain.skip(1) =~= rest);
    assert(rest.push(c).drop_last() =~= rest);
}

/// A pattern is found in a line where it is in any of its three wordings.
pub proof fn a_pattern_is_found_in_any_wording(line: Line, expression: Seq<char>)
    ensures
        expression_found(expression, line.shown@) ==> line.found(expression),
        expression_found(expression, line.readable@) ==> line.found(expression),
        expression_found(expression, line.raw@) ==> line.found(expression),
        !expression_found(expression, line.shown@) && !expression_found(expression, line.readable@)
            && !expression_found(expression, line.raw@) ==> !line.found(expression),
{
}

} // verus!
