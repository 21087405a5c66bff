//! The block entities a vanilla client keeps, and the two editors it opens on them.
//!
//! A sign's text is only in its block entity, and so is a command block's command, and a client
//! edits both on screens built from what it was sent: a sign editor starts from the text already on
//! the sign, and the command block editor waits for the block's command before it lets anything be
//! done.
use vstd::prelude::*;

use crate::json::{docs, Doc, Json};
use crate::place::{chunk_of, BlockPos};
use crate::table::{kept_only, Table};
use crate::words::{bare, letters, same, texts, unprefixed};

verus! {

/// A block entity as the server last sent it, and the block it was sent for: a block entity outlives
/// its block in nothing the client draws, and one on a position whose block has since changed is gone.
pub struct BlockEntity {
    pub kind: String,
    pub block: Option<String>,
    pub data: Json,
}

impl BlockEntity {
    /// Whether this still counts on a position that holds `block`.
    pub open spec fn fits(&self, block: Seq<char>) -> bool {
        match self.block {
            Some(kept) => kept@ == block,
            None => true,
        }
    }
}

pub struct BlockEntities {
    by_position: Table<BlockPos, BlockEntity>,
}

impl View for BlockEntities {
    type V = Map<BlockPos, BlockEntity>;

    closed spec fn view(&self) -> Map<BlockPos, BlockEntity> {
        self.by_position@
    }
}

/// Whether a position lies in the chunk at `x` and `z`.
pub open spec fn in_chunk(at: BlockPos, x: i32, z: i32) -> bool {
    at.x as int / 16 == x && at.z as int / 16 == z
}

/// The block entities that are not in a chunk.
pub open spec fn outside_chunk(x: i32, z: i32) -> spec_fn(BlockPos, BlockEntity) -> bool {
    |at: BlockPos, entity: BlockEntity| !in_chunk(at, x, z)
}

impl BlockEntities {
    pub fn new() -> (r: BlockEntities)
        ensures
            r@ == Map::<BlockPos, BlockEntity>::empty(),
    {
        BlockEntities { by_position: Table::new() }
    }

    pub fn keep(&mut self, at: BlockPos, entity: BlockEntity)
        ensures
            final(self)@ == old(self)@.insert(at, entity),
    {
        self.by_position.insert(at, entity);
    }

    /// A chunk arrives whole, so what was kept for it before is replaced rather than added to.
    pub fn forget_chunk(&mut self, x: i32, z: i32)
        ensures
            final(self)@ == kept_only(old(self)@, outside_chunk(x, z)),
    {
        let elsewhere = |at: &BlockPos, _entity: &BlockEntity| -> (r: bool)
            ensures
                r == !in_chunk(*at, x, z),
        { chunk_of(at.x) != x || chunk_of(at.z) != z };
        self.by_position.retain(elsewhere, Ghost(outside_chunk(x, z)));
    }

    pub fn clear(&mut self)
        ensures
            final(self)@ == Map::<BlockPos, BlockEntity>::empty(),
    {
        self.by_position.clear();
    }

    /// The block entity on a position, while the block it came with is still there.
    pub fn at(&self, at: BlockPos, block: &str) -> (r: Option<&BlockEntity>)
        ensures
            match r {
                Some(entity) => self@.dom().contains(at) && self@[at] == *entity && entity.fits(
                    block@,
                ),
                None => !self@.dom().contains(at) || !self@[at].fits(block@),
            },
    {
        match self.by_position.get(&at) {
            Some(entity) => match &entity.block {
                Some(kept) => if same(kept.as_str(), block) {
                    Some(entity)
                } else {
                    None
                },
                None => Some(entity),
            },
            None => None,
        }
    }
}

/// The four lines of one face of a sign, as the components they were written as: what the face has,
/// and empty text where it has less.
pub open spec fn face_lines(data: Doc, face: Seq<char>) -> Seq<Doc> {
    let messages = match data.at(face) {
        Some(text) => text.items_at("messages"@),
        None => None,
    };
    Seq::new(
        4,
        |i: int|
            match messages {
                Some(lines) => if i < lines.len() {
                    lines[i]
                } else {
                    Doc::Text(Seq::empty())
                },
                None => Doc::Text(Seq::empty()),
            },
    )
}

/// One face of a sign, as its lines read and as the components they were written as.
pub fn sign_face(data: &Json, face: &str) -> (r: (Vec<String>, Vec<Json>))
    ensures
        docs(r.1@) == face_lines(data@, face@),
        texts(r.0@) == Seq::new(4, |i: int| face_lines(data@, face@)[i].words()),
{
    let messages: Option<&Vec<Json>> = match data.get(face) {
        Some(text) => text.items_at("messages"),
        None => None,
    };
    let mut lines: Vec<String> = Vec::new();
    let mut components: Vec<Json> = Vec::new();
    let mut i: usize = 0;
    let ghost wanted = face_lines(data@, face@);
    while i < 4
        invariant
            i <= 4,
            wanted == face_lines(data@, face@),
            match messages {
                Some(kept) => forall|k: int|
                    0 <= k < 4 ==> #[trigger] wanted[k] == if k < kept@.len() {
                        kept@[k]@
                    } else {
                        Doc::Text(Seq::empty())
                    },
                None => forall|k: int|
                    0 <= k < 4 ==> #[trigger] wanted[k] == Doc::Text(Seq::empty()),
            },
            lines@.len() == i,
            components@.len() == i,
            forall|k: int| 0 <= k < i ==> (#[trigger] components@[k])@ == wanted[k],
            forall|k: int| 0 <= k < i ==> (#[trigger] lines@[k])@ == wanted[k].words(),
        decreases 4 - i,
    {
        proof {
            reveal_strlit("");
            assert(""@ =~= Seq::empty());
            assert(wanted[i as int] == wanted[i as int]);
        }
        let component = match messages {
            Some(kept) => if i < kept.len() {
                kept[i].copy()
            } else {
                Json::text("")
            },
            None => Json::text(""),
        };
        lines.push(component.words());
        components.push(component);
        i += 1;
    }
    proof {
        assert(docs(components@) =~= wanted);
        assert(texts(lines@) =~= Seq::new(4, |i: int| wanted[i].words()));
    }
    (lines, components)
}

pub fn is_sign(kind: &str) -> (r: bool)
    ensures
        r == (bare(kind@) == "sign"@ || bare(kind@) == "hanging_sign"@),
{
    let name = unprefixed(kind);
    same(name.as_str(), "sign") || same(name.as_str(), "hanging_sign")
}

/// The sign editor the server opened on one face of a sign.
pub struct SignEditor {
    pub at: BlockPos,
    pub front: bool,
    pub hanging: bool,
    pub lines: [String; 4],
}

impl SignEditor {
    pub fn title(&self) -> (r: &'static str)
        ensures
            r@ == if self.hanging {
                "Edit Hanging Sign Message"@
            } else {
                "Edit Sign Message"@
            },
    {
        if self.hanging {
            "Edit Hanging Sign Message"
        } else {
            "Edit Sign Message"
        }
    }

    /// How wide a line of this sign may draw, in the pixels the client's font measures.
    pub fn line_width(&self) -> (r: u32)
        ensures
            r == if self.hanging {
                60u32
            } else {
                90u32
            },
    {
        if self.hanging {
            60
        } else {
            90
        }
    }
}

/// What makes a command block run.
#[derive(Clone, Copy, Debug, PartialEq, Eq, Structural)]
pub enum Mode {
    Sequence,
    Auto,
    Redstone,
}

/// The command block editor. It opens on the client before the server has sent the block's command,
/// and until that arrives its controls are off: a command typed then is written over when it lands.
pub struct CommandEditor {
    pub at: BlockPos,
    pub loaded: bool,
    pub command: String,
    pub previous_output: String,
    pub track_output: bool,
    pub mode: Mode,
    pub conditional: bool,
    pub automatic: bool,
}

/// A flag of a block's data, which NBT writes as a byte.
pub open spec fn flag_of(value: Option<Doc>, fallback: bool) -> bool {
    match value {
        Some(Doc::Bool(flag)) => flag,
        Some(Doc::Number(number)) => number.int_of() matches Some(n) && n != 0,
        _ => fallback,
    }
}

fn flag(value: Option<&Json>, fallback: bool) -> (r: bool)
    ensures
        r == flag_of(
            match value {
                Some(value) => Some(value@),
                None => None,
            },
            fallback,
        ),
{
    match value {
        Some(Json::Bool(flag)) => *flag,
        Some(Json::Number(number)) => match number.as_i64() {
            Some(n) => n != 0,
            None => false,
        },
        _ => fallback,
    }
}

/// What makes a block of a name run.
pub open spec fn mode_of(block: Seq<char>) -> Mode {
    if bare(block) == "chain_command_block"@ {
        Mode::Sequence
    } else if bare(block) == "repeating_command_block"@ {
        Mode::Auto
    } else {
        Mode::Redstone
    }
}

impl CommandEditor {
    /// Whether an editor is as it opens, before the block's command arrived.
    pub open spec fn just_opened(&self, at: BlockPos) -> bool {
        &&& self.at == at
        &&& !self.loaded
        &&& self.command@ == Seq::<char>::empty()
        &&& self.previous_output@ == "-"@
        &&& self.track_output
        &&& self.mode == Mode::Redstone
        &&& !self.conditional
        &&& !self.automatic
    }

    pub fn new(at: BlockPos) -> (r: CommandEditor)
        ensures
            r.just_opened(at),
    {
        proof {
            reveal_strlit("");
            assert(""@ =~= Seq::empty());
        }
        CommandEditor {
            at,
            loaded: false,
            command: "".to_owned(),
            previous_output: "-".to_owned(),
            track_output: true,
            mode: Mode::Redstone,
            conditional: false,
            automatic: false,
        }
    }

    /// Whether an editor is filled from a block's data and the block.
    pub open spec fn is_filled(&self, data: Doc, block: Seq<char>, conditional: bool) -> bool {
        &&& self.loaded
        &&& self.command@ == match data.text_at("Command"@) {
            Some(command) => command,
            None => Seq::empty(),
        }
        &&& self.track_output == flag_of(data.at("TrackOutput"@), true)
        &&& self.automatic == flag_of(data.at("auto"@), false)
        &&& self.previous_output@ == match data.at("LastOutput"@) {
            Some(output) => if self.track_output {
                output.words()
            } else {
                "-"@
            },
            None => "-"@,
        }
        &&& self.mode == mode_of(block)
        &&& self.conditional == conditional
    }

    /// Filled from the block's data and its block.
    pub fn load(&mut self, data: &Json, block: &str, conditional: bool)
        ensures
            final(self).at == old(self).at,
            final(self).is_filled(data@, block@, conditional),
    {
        proof {
            reveal_strlit("");
            assert(""@ =~= Seq::empty());
        }
        self.command =
        match data.text_at("Command") {
            Some(command) => command.to_owned(),
            None => "".to_owned(),
        };
        self.track_output = flag(data.get("TrackOutput"), true);
        self.automatic = flag(data.get("auto"), false);
        self.previous_output =
        match data.get("LastOutput") {
            Some(output) => if self.track_output {
                output.words()
            } else {
                "-".to_owned()
            },
            None => "-".to_owned(),
        };
        let name = unprefixed(block);
        self.mode =
        if same(name.as_str(), "chain_command_block") {
            Mode::Sequence
        } else if same(name.as_str(), "repeating_command_block") {
            Mode::Auto
        } else {
            Mode::Redstone
        };
        self.conditional = conditional;
        self.loaded = true;
    }

    /// The words on the buttons, in the order the screen adds them.
    pub open spec fn labels(&self) -> Seq<Seq<char>> {
        seq![
            if self.track_output {
                "O"@
            } else {
                "X"@
            },
            match self.mode {
                Mode::Sequence => "Chain"@,
                Mode::Auto => "Repeat"@,
                Mode::Redstone => "Impulse"@,
            },
            if self.conditional {
                "Conditional"@
            } else {
                "Unconditional"@
            },
            if self.automatic {
                "Always Active"@
            } else {
                "Needs Redstone"@
            },
            "Done"@,
            "Cancel"@,
        ]
    }

    /// The buttons in the order the screen adds them, each under the words it shows.
    pub fn buttons(&self) -> (r: [String; 6])
        ensures
            texts(r@) == self.labels(),
    {
        let track: &str = if self.track_output {
            "O"
        } else {
            "X"
        };
        let mode: &str = match self.mode {
            Mode::Sequence => "Chain",
            Mode::Auto => "Repeat",
            Mode::Redstone => "Impulse",
        };
        let conditional: &str = if self.conditional {
            "Conditional"
        } else {
            "Unconditional"
        };
        let automatic: &str = if self.automatic {
            "Always Active"
        } else {
            "Needs Redstone"
        };
        let r = [
            track.to_owned(),
            mode.to_owned(),
            conditional.to_owned(),
            automatic.to_owned(),
            "Done".to_owned(),
            "Cancel".to_owned(),
        ];
        proof {
            assert(texts(r@) =~= self.labels());
        }
        r
    }

    /// The editor once the button at an index was pressed.
    pub open spec fn pressed(self, index: int) -> CommandEditor {
        if index == 0 {
            CommandEditor { track_output: !self.track_output, ..self }
        } else if index == 1 {
            CommandEditor {
                mode: match self.mode {
                    Mode::Sequence => Mode::Auto,
                    Mode::Auto => Mode::Redstone,
                    Mode::Redstone => Mode::Sequence,
                },
                ..self
            }
        } else if index == 2 {
            CommandEditor { conditional: !self.conditional, ..self }
        } else if index == 3 {
            CommandEditor { automatic: !self.automatic, ..self }
        } else {
            self
        }
    }

    /// A press on the button at an index. Every cycle moves one value on, wrapping, as a click does.
    pub fn press(&mut self, index: usize)
        ensures
            *final(self) == old(self).pressed(index as int),
    {
        match index {
            0 => {
                self.track_output = !self.track_output;
            },
            1 => {
                self.mode =
                match self.mode {
                    Mode::Sequence => Mode::Auto,
                    Mode::Auto => Mode::Redstone,
                    Mode::Redstone => Mode::Sequence,
                };
            },
            2 => {
                self.conditional = !self.conditional;
            },
            3 => {
                self.automatic = !self.automatic;
            },
            _ => {},
        }
    }
}

/// Pressing a button over and over comes back round: the mode after three presses, any other after two.
pub proof fn pressing_comes_back_round(editor: CommandEditor, index: int)
    ensures
        index == 1 ==> editor.pressed(index).pressed(index).pressed(index) == editor,
        index != 1 ==> editor.pressed(index).pressed(index) == editor,
{
}

/// A press on one of the buttons that cycle changes the words on it and on no other.
pub proof fn a_press_changes_its_own_words(editor: CommandEditor, index: int, other: int)
    requires
        0 <= index < 6,
        0 <= other < 6,
        other != index,
    ensures
        editor.pressed(index).labels()[other] == editor.labels()[other],
        index < 4 ==> editor.pressed(index).labels()[index] != editor.labels()[index],
{
    reveal_strlit("O");
    reveal_strlit("X");
    reveal_strlit("Chain");
    reveal_strlit("Repeat");
    reveal_strlit("Impulse");
    reveal_strlit("Conditional");
    reveal_strlit("Unconditional");
    reveal_strlit("Always Active");
    reveal_strlit("Needs Redstone");
    assert("O"@[0] != "X"@[0]);
    assert("Chain"@.len() != "Repeat"@.len());
    assert("Chain"@.len() != "Impulse"@.len());
    assert("Repeat"@.len() != "Impulse"@.len());
    assert("Conditional"@.len() != "Unconditional"@.len());
    assert("Always Active"@.len() != "Needs Redstone"@.len());
}

/// How wide one character draws, in pixels, advance included.
pub open spec fn char_width(c: char) -> nat {
    if c == ' ' || c == 't' || c == 'I' || c == '[' || c == ']' || c == '(' || c == ')' || c == '{'
        || c == '}' || c == '*' || c == '"' {
        4
    } else if c == '!' || c == '\'' || c == ',' || c == '.' || c == ':' || c == ';' || c == '|' || c
        == 'i' {
        2
    } else if c == 'l' || c == '`' {
        3
    } else if c == 'f' || c == 'k' || c == '<' || c == '>' {
        5
    } else if c == '@' || c == '~' {
        7
    } else if c as int >= 0x2E80 {
        9
    } else {
        6
    }
}

/// How wide a text draws: its characters' widths together.
pub open spec fn width_of(text: Seq<char>) -> nat
    decreases text.len(),
{
    if text.len() == 0 {
        0
    } else {
        width_of(text.drop_last()) + char_width(text.last())
    }
}

fn width(c: char) -> (r: u32)
    ensures
        r == char_width(c),
        r <= 9,
{
    match c {
        ' ' | 't' | 'I' | '[' | ']' | '(' | ')' | '{' | '}' | '*' | '"' => 4,
        '!' | '\'' | ',' | '.' | ':' | ';' | '|' | 'i' => 2,
        'l' | '`' => 3,
        'f' | 'k' | '<' | '>' => 5,
        '@' | '~' => 7,
        _ => if c as u32 >= 0x2E80 {
            9
        } else {
            6
        },
    }
}

/// How wide a string draws in the client's default font, in pixels, advance included.
///
/// An approximation of the glyph widths in the default font's ASCII sheet, which is what a sign's
/// line limit is measured against. Wrong by a pixel or two on characters outside it, and a line a
/// pixel from the limit can take one character more or fewer than the other kind of bot's.
pub fn text_width(text: &str) -> (r: u32)
    requires
        9 * text@.len() <= u32::MAX,
    ensures
        r == width_of(text@),
{
    let all = letters(text);
    let mut sum: u32 = 0;
    let mut i: usize = 0;
    while i < all.len()
        invariant
            i <= all@.len(),
            all@ == text@,
            9 * text@.len() <= u32::MAX,
            sum <= 9 * i,
            sum == width_of(text@.take(i as int)),
        decreases all@.len() - i,
    {
        proof {
            assert(text@.take(i as int + 1).drop_last() =~= text@.take(i as int));
        }
        sum += width(all[i]);
        i += 1;
    }
    proof {
        assert(text@.take(text@.len() as int) =~= text@);
    }
    sum
}

/// Whether a text draws no wider than a width.
pub fn fits(text: &str, limit: u32) -> (r: bool)
    ensures
        r == (width_of(text@) <= limit),
{
    let all = letters(text);
    let mut sum: u128 = 0;
    let mut i: usize = 0;
    while i < all.len()
        invariant
            i <= all@.len(),
            all@ == text@,
            sum <= 9 * i,
            sum == width_of(text@.take(i as int)),
        decreases all@.len() - i,
    {
        proof {
            assert(text@.take(i as int + 1).drop_last() =~= text@.take(i as int));
        }
        sum += width(all[i]) as u128;
        i += 1;
    }
    proof {
        assert(text@.take(text@.len() as int) =~= text@);
    }
    sum <= limit as u128
}

/// A sign's line is what was written on that line of that face, and empty where nothing was.
pub proof fn a_signs_line_is_what_was_written(data: Doc, face: Seq<char>, i: int)
    requires
        0 <= i < 4,
    ensures
        face_lines(data, face).len() == 4,
        data.at(face) is None ==> face_lines(data, face)[i] == Doc::Text(Seq::empty()),
        data.at(face) matches Some(text) ==> (text.items_at("messages"@) matches Some(lines) ==> (i
            < lines.len() ==> face_lines(data, face)[i] == lines[i]) && (i >= lines.len()
            ==> face_lines(data, face)[i] == Doc::Text(Seq::empty()))),
{
}

/// An editor filled in has the block's command, its flags and its output; a block that does not
/// track its output shows none.
pub proof fn an_editor_is_filled_from_its_block(
    editor: CommandEditor,
    data: Doc,
    block: Seq<char>,
    conditional: bool,
)
    requires
        editor.is_filled(data, block, conditional),
    ensures
        editor.loaded,
        editor.conditional == conditional,
        data.text_at("Command"@) matches Some(command) ==> editor.command@ == command,
        data.bool_at("TrackOutput"@) matches Some(tracks) ==> editor.track_output == tracks,
        data.at("TrackOutput"@) is None ==> editor.track_output,
        data.int_at("TrackOutput"@) == Some(0i64) ==> !editor.track_output,
        data.int_at("TrackOutput"@) == Some(1i64) ==> editor.track_output,
        data.bool_at("auto"@) matches Some(auto) ==> editor.automatic == auto,
        data.at("auto"@) is None ==> !editor.automatic,
        data.int_at("auto"@) == Some(1i64) ==> editor.automatic,
        data.int_at("auto"@) == Some(0i64) ==> !editor.automatic,
        editor.track_output ==> (data.at("LastOutput"@) matches Some(output)
            ==> editor.previous_output@ == output.words()),
        !editor.track_output || data.at("LastOutput"@) is None ==> editor.previous_output@ == "-"@,
        bare(block) == "chain_command_block"@ ==> editor.mode == Mode::Sequence,
        bare(block) == "repeating_command_block"@ ==> editor.mode == Mode::Auto,
        bare(block) == "command_block"@ ==> editor.mode == Mode::Redstone,
{
    reveal_strlit("chain_command_block");
    reveal_strlit("repeating_command_block");
    reveal_strlit("command_block");
    assert("chain_command_block"@.len() == 19);
    assert("repeating_command_block"@.len() == 23);
    assert("command_block"@.len() == 13);
}

/// The buttons read what the editor is set to, in the order the screen adds them.
pub proof fn the_buttons_read_what_is_set(editor: CommandEditor)
    ensures
        editor.labels().len() == 6,
        editor.track_output ==> editor.labels()[0] == "O"@,
        !editor.track_output ==> editor.labels()[0] == "X"@,
        editor.mode == Mode::Sequence ==> editor.labels()[1] == "Chain"@,
        editor.mode == Mode::Auto ==> editor.labels()[1] == "Repeat"@,
        editor.mode == Mode::Redstone ==> editor.labels()[1] == "Impulse"@,
        editor.conditional ==> editor.labels()[2] == "Conditional"@,
        !editor.conditional ==> editor.labels()[2] == "Unconditional"@,
        editor.automatic ==> editor.labels()[3] == "Always Active"@,
        !editor.automatic ==> editor.labels()[3] == "Needs Redstone"@,
        editor.labels()[4] == "Done"@,
        editor.labels()[5] == "Cancel"@,
{
}

/// A press turns over what its button says, the mode from impulse to chain to repeat and back, and
/// leaves the rest.
pub proof fn a_press_turns_its_own_over(editor: CommandEditor)
    ensures
        editor.pressed(0) == (CommandEditor { track_output: !editor.track_output, ..editor }),
        editor.mode == Mode::Redstone ==> editor.pressed(1).mode == Mode::Sequence,
        editor.mode == Mode::Sequence ==> editor.pressed(1).mode == Mode::Auto,
        editor.mode == Mode::Auto ==> editor.pressed(1).mode == Mode::Redstone,
        editor.pressed(1) == (CommandEditor { mode: editor.pressed(1).mode, ..editor }),
        editor.pressed(2) == (CommandEditor { conditional: !editor.conditional, ..editor }),
        editor.pressed(3) == (CommandEditor { automatic: !editor.automatic, ..editor }),
        editor.pressed(4) == editor,
        editor.pressed(5) == editor,
{
}

/// A text is as wide as its characters together, each at least two pixels and at most nine.
pub proof fn a_text_is_as_wide_as_its_characters(text: Seq<char>, c: char)
    ensures
        width_of(Seq::empty()) == 0,
        width_of(text.push(c)) == width_of(text) + char_width(c),
        2 <= char_width(c) <= 9,
        char_width(' ') == 4 && char_width('i') == 2 && char_width('l') == 3 && char_width('f') == 5
            && char_width('@') == 7 && char_width('a') == 6 && char_width('W') == 6 && char_width('t')
            == 4,
        c >= '\u{2E80}' ==> char_width(c) == 9,
{
    assert(text.push(c).drop_last() =~= text);
}

/// A place lies in the chunk its two coordinates are sixteenths of.
pub proof fn a_place_lies_in_its_chunk(at: BlockPos, x: i32, z: i32)
    ensures
        in_chunk(at, x, z) <==> 16 * x <= at.x < 16 * x + 16 && 16 * z <= at.z < 16 * z + 16,
{
}

/// Each character is as wide as the font draws it: the narrow ones by name, the wide ones from the first
/// ideograph on, and six for every other.
pub proof fn a_character_has_its_own_width(c: char)
    ensures
        c == ' ' || c == 't' || c == 'I' || c == '[' || c == ']' || c == '(' || c == ')' || c == '{' || c == '}' || c == '*' || c == '"' ==> char_width(c) == 4,
        c == '!' || c == '\'' || c == ',' || c == '.' || c == ':' || c == ';' || c == '|' || c == 'i' ==> char_width(c) == 2,
        c == 'l' || c == '`' ==> char_width(c) == 3,
        c == 'f' || c == 'k' || c == '<' || c == '>' ==> char_width(c) == 5,
        c == '@' || c == '~' ==> char_width(c) == 7,
        c != ' ' && c != 't' && c != 'I' && c != '[' && c != ']' && c != '(' && c != ')' && c != '{' && c != '}' && c != '*' && c != '"' && c != '!' && c != '\'' && c != ',' && c != '.' && c != ':' && c != ';' && c != '|' && c != 'i' && c != 'l' && c != '`' && c != 'f' && c != 'k' && c != '<' && c != '>' && c != '@' && c != '~' && c < '\u{2E80}' ==> char_width(c) == 6,
{
}

} // verus!
