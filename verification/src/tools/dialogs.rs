//! Pressing a dialog's buttons and setting its inputs.
use vstd::prelude::*;

use crate::calls::{Answer, AnswerView, Failure, FailureView};
use crate::commands::{check_of, verify, Check, Commands};
use crate::dialog::{
    action_of, button_views, buttons_of, input_views, inputs_of, screen_of, shown, value_of, Action,
    ActionView, Entry, Held, HeldView, Input, InputView, Kind, KindView, Open, Slider,
};
use crate::feeds;
use crate::json::{a_field_reads_back, an_empty_object_has_nothing, Doc, Json, Number};
use crate::tag::{Tag, TagView};
use crate::tools::args::text;
use crate::words::{
    after, begins, cat2, cat3, cat4, cat5, cat6, cat7, contains, join, joined, lowercase,
    lowercase_of, occurs, quote, quoted, same, starts_with, texts,
};

verus! {

pub const CONFIRM_TITLE: &'static str = "Confirm Command Execution";

pub const RUN_COMMAND: &'static str = "Run Command";

pub const SUGGEST_COMMAND: &'static str = "Copy to Chat Screen";

/// The first label from a place on that is all of what is asked for, ignoring case.
pub open spec fn whole_match(labels: Seq<Seq<char>>, lowered: Seq<char>, from: int) -> Option<int>
    decreases labels.len() - from,
{
    if from < 0 || from >= labels.len() {
        None
    } else if lowercase_of(labels[from]) == lowered {
        Some(from)
    } else {
        whole_match(labels, lowered, from + 1)
    }
}

/// The first label from a place on that has what is asked for in it, ignoring case.
pub open spec fn part_match(labels: Seq<Seq<char>>, lowered: Seq<char>, from: int) -> Option<int>
    decreases labels.len() - from,
{
    if from < 0 || from >= labels.len() {
        None
    } else if occurs(lowercase_of(labels[from]), lowered) {
        Some(from)
    } else {
        part_match(labels, lowered, from + 1)
    }
}

/// The label a player means: all of it first, any part of it after, both ignoring case.
pub open spec fn picked(labels: Seq<Seq<char>>, label: Seq<char>) -> Option<int> {
    let lowered = lowercase_of(label);
    match whole_match(labels, lowered, 0) {
        Some(i) => Some(i),
        None => part_match(labels, lowered, 0),
    }
}

/// By the label a player reads: all of it first, any part of it after, both ignoring case.
pub fn pick_by(labels: &Vec<String>, label: &str) -> (r: Option<usize>)
    ensures
        match r {
            Some(i) => picked(texts(labels@), label@) == Some(i as int) && i < labels@.len(),
            None => picked(texts(labels@), label@) is None,
        },
{
    let lowered = lowercase(label);
    let ghost all = texts(labels@);
    let mut i: usize = 0;
    while i < labels.len()
        invariant
            i <= labels@.len(),
            all == texts(labels@),
            lowered@ == lowercase_of(label@),
            whole_match(all, lowered@, 0) == whole_match(all, lowered@, i as int),
        decreases labels@.len() - i,
    {
        proof {
            assert(all[i as int] == labels@[i as int]@);
        }
        if same(lowercase(labels[i].as_str()).as_str(), lowered.as_str()) {
            return Some(i);
        }
        i += 1;
    }
    let mut j: usize = 0;
    while j < labels.len()
        invariant
            j <= labels@.len(),
            all == texts(labels@),
            lowered@ == lowercase_of(label@),
            whole_match(all, lowered@, 0) is None,
            part_match(all, lowered@, 0) == part_match(all, lowered@, j as int),
        decreases labels@.len() - j,
    {
        proof {
            assert(all[j as int] == labels@[j as int]@);
        }
        if contains(lowercase(labels[j].as_str()).as_str(), lowered.as_str()) {
            return Some(j);
        }
        j += 1;
    }
    None
}

/// A label that is all of what is asked for is picked before any that only has it in it.
pub proof fn a_whole_label_comes_first(labels: Seq<Seq<char>>, label: Seq<char>, i: int)
    requires
        0 <= i < labels.len(),
        lowercase_of(labels[i]) == lowercase_of(label),
    ensures
        picked(labels, label) matches Some(at) && at <= i && lowercase_of(labels[at])
            == lowercase_of(label),
{
    whole_is_found(labels, lowercase_of(label), 0, i);
}

proof fn whole_is_found(labels: Seq<Seq<char>>, lowered: Seq<char>, from: int, i: int)
    requires
        0 <= from <= i < labels.len(),
        lowercase_of(labels[i]) == lowered,
    ensures
        whole_match(labels, lowered, from) matches Some(at) && from <= at <= i && lowercase_of(
            labels[at],
        ) == lowered,
    decreases i - from,
{
    if from < i && lowercase_of(labels[from]) != lowered {
        whole_is_found(labels, lowered, from + 1, i);
    }
}

/// Each of a list of labels in quotes.
pub open spec fn in_quotes(labels: Seq<Seq<char>>) -> Seq<Seq<char>> {
    Seq::new(labels.len(), |i: int| quoted(labels[i]))
}

pub open spec fn offered_of(labels: Seq<Seq<char>>) -> Seq<char> {
    if labels.len() == 0 {
        "none"@
    } else {
        joined(in_quotes(labels), ", "@)
    }
}

pub fn offered(labels: &Vec<String>) -> (r: String)
    ensures
        r@ == offered_of(texts(labels@)),
{
    let mut list: Vec<String> = Vec::new();
    let mut i: usize = 0;
    while i < labels.len()
        invariant
            i <= labels@.len(),
            list@.len() == i,
            forall|k: int| 0 <= k < i ==> (#[trigger] list@[k])@ == quoted(labels@[k]@),
        decreases labels@.len() - i,
    {
        list.push(quote(labels[i].as_str()));
        i += 1;
    }
    proof {
        assert(texts(list@) =~= in_quotes(texts(labels@)));
        assert(texts(labels@).len() == labels@.len());
    }
    if list.len() == 0 {
        "none".to_owned()
    } else {
        join(&list, ", ")
    }
}

/// What is said of a button that is not there.
pub open spec fn no_button(label: Seq<char>, screen: Seq<char>, labels: Seq<Seq<char>>) -> FailureView {
    FailureView::refusal(
        "NO_SUCH_BUTTON"@,
        "no button matching \""@ + label + "\" on "@ + screen + "; it offers "@ + offered_of(labels),
    )
}

pub fn no_such_button(label: &str, screen: &str, buttons: &Vec<String>) -> (r: Failure)
    ensures
        r@ == no_button(label@, screen@, texts(buttons@)),
{
    Failure::refused(
        "NO_SUCH_BUTTON",
        cat6(
            "no button matching \"",
            label,
            "\" on ",
            screen,
            "; it offers ",
            offered(buttons).as_str(),
        ),
    )
}

/// What a button's press sends.
pub enum Sent {
    /// A command, and whether the client would have asked to confirm it first -- and been told yes.
    Command { command: String, confirmed: bool },
    Custom { id: String, payload: Option<Tag> },
    Nothing,
}

pub enum SentView {
    Command(Seq<char>, bool),
    Custom(Seq<char>, Option<TagView>),
    Nothing,
}

impl View for Sent {
    type V = SentView;

    open spec fn view(&self) -> SentView {
        match self {
            Sent::Command { command, confirmed } => SentView::Command(command@, *confirmed),
            Sent::Custom { id, payload } => SentView::Custom(
                id@,
                match payload {
                    Some(payload) => Some(payload@),
                    None => None,
                },
            ),
            Sent::Nothing => SentView::Nothing,
        }
    }
}

/// A command without the slash in front of it.
pub open spec fn unslashed(command: Seq<char>) -> Seq<char> {
    if begins(command, "/"@) {
        command.skip(1)
    } else {
        command
    }
}

/// What is said of a command the client will not run from a dialog.
pub open spec fn not_run(label: Seq<char>) -> FailureView {
    FailureView::refusal(
        "COMMAND_NOT_RUN"@,
        "\""@ + label
            + "\" asks the client to run a command and it will not: all it offers is \""@
            + SUGGEST_COMMAND@
            + "\". A command that sends chat as the player can only be run from the chat screen, so an action built on one does nothing when pressed. This is the server's to fix, not the bot's."@,
    )
}

/// What running an action sends: a command, unless it is one the client only sends from the chat
/// screen; a custom click; or nothing.
pub open spec fn run_of(commands: Option<Commands>, action: ActionView, label: Seq<char>) -> Result<
    SentView,
    FailureView,
> {
    match action {
        ActionView::Command(command) => {
            let bare = unslashed(command);
            match check_of(commands, bare) {
                Check::SignatureRequired => Err(not_run(label)),
                Check::NoIssues => Ok(SentView::Command(bare, false)),
                _ => Ok(SentView::Command(bare, true)),
            }
        },
        ActionView::Custom(id, payload) => Ok(SentView::Custom(id, payload)),
        ActionView::Local => Ok(SentView::Nothing),
    }
}

/// Run what a dialog button is bound to. A command the client would have asked to confirm is one it
/// was told yes for, which the reply says the way the other kind of bot does.
pub fn run(commands: &Option<Commands>, open: &Open, action: &Json, label: &str) -> (r: Result<
    Sent,
    Failure,
>)
    ensures
        ({
            let want = run_of(
                *commands,
                action_of(open.definition@, open.holding(), action@),
                label@,
            );
            match r {
                Ok(sent) => want == Ok::<SentView, FailureView>(sent@),
                Err(failure) => want == Err::<SentView, FailureView>(failure@),
            }
        }),
{
    match open.action(action) {
        Action::Command(command) => {
            let bare = if starts_with(command.as_str(), "/") {
                proof {
                    reveal_strlit("/");
                }
                after(command.as_str(), 1)
            } else {
                command
            };
            let check = verify(commands, bare.as_str());
            if check == Check::SignatureRequired {
                return Err(
                    Failure::refused(
                        "COMMAND_NOT_RUN",
                        cat5(
                            "\"",
                            label,
                            "\" asks the client to run a command and it will not: all it offers is \"",
                            SUGGEST_COMMAND,
                            "\". A command that sends chat as the player can only be run from the chat screen, so an action built on one does nothing when pressed. This is the server's to fix, not the bot's.",
                        ),
                    ),
                );
            }
            Ok(Sent::Command { command: bare, confirmed: check != Check::NoIssues })
        },
        Action::Custom { id, payload } => Ok(Sent::Custom { id, payload }),
        Action::Local => Ok(Sent::Nothing),
    }
}

/// The words on a list of buttons.
pub open spec fn button_labels(buttons: Seq<(Seq<char>, Option<Doc>)>) -> Seq<Seq<char>> {
    Seq::new(buttons.len(), |i: int| buttons[i].0)
}

/// A button that was pressed: what it sends, and what is answered once it was sent.
pub struct Pressed {
    pub label: String,
    pub sent: Sent,
    /// The screen that stays, where one does.
    pub stays: Option<&'static str>,
}

/// Whether a dialog stays once a button of it has run.
pub open spec fn stays_of(definition: Doc) -> bool {
    definition.text_at("after_action"@) matches Some(after) && crate::words::ends(after, "none"@)
}

/// What a press on a dialog comes to: the button by what is asked for, and what it sends.
pub open spec fn press_of(
    definition: Doc,
    holding: Map<Seq<char>, HeldView>,
    commands: Option<Commands>,
    label: Seq<char>,
) -> Result<(Seq<char>, SentView), FailureView> {
    let buttons = buttons_of(definition);
    match picked(button_labels(buttons), label) {
        Some(i) => match buttons[i].1 {
            Some(action) => match run_of(
                commands,
                action_of(definition, holding, action),
                buttons[i].0,
            ) {
                Ok(sent) => Ok((buttons[i].0, sent)),
                Err(failure) => Err(failure),
            },
            None => Ok((buttons[i].0, SentView::Nothing)),
        },
        None => Err(no_button(label, screen_of(definition), button_labels(buttons))),
    }
}

/// Press a button of the dialog that is open. A command the client will not run takes the dialog
/// down with it, as the client does; else the dialog goes unless it says that it stays.
pub fn press(dialog: &mut Option<Open>, commands: &Option<Commands>, label: &str) -> (r: Result<
    Pressed,
    Failure,
>)
    requires
        *old(dialog) is Some,
    ensures
        ({
            let open = (*old(dialog)).unwrap();
            let want = press_of(open.definition@, open.holding(), *commands, label@);
            let known = picked(button_labels(buttons_of(open.definition@)), label@) is Some;
            match r {
                Ok(pressed) => {
                    &&& want == Ok::<(Seq<char>, SentView), FailureView>(
                        (pressed.label@, pressed.sent@),
                    )
                    &&& stays_of(open.definition@) == pressed.stays is Some
                    &&& pressed.stays matches Some(screen) ==> screen@ == screen_of(
                        open.definition@,
                    )
                    &&& *final(dialog) == if stays_of(open.definition@) {
                        *old(dialog)
                    } else {
                        None
                    }
                },
                Err(failure) => {
                    &&& want == Err::<(Seq<char>, SentView), FailureView>(failure@)
                    &&& *final(dialog) == if known {
                        None
                    } else {
                        *old(dialog)
                    }
                },
            }
        }),
{
    let taken = dialog.take();
    match taken {
        Some(open) => {
            let buttons = open.buttons();
            let ghost views = buttons_of(open.definition@);
            let mut labels: Vec<String> = Vec::new();
            let mut i: usize = 0;
            proof {
                assert(button_views(buttons@).len() == buttons@.len());
            }
            while i < buttons.len()
                invariant
                    i <= buttons@.len(),
                    button_views(buttons@) == views,
                    labels@.len() == i,
                    forall|k: int| 0 <= k < i ==> (#[trigger] labels@[k])@ == views[k].0,
                decreases buttons@.len() - i,
            {
                proof {
                    assert(button_views(buttons@)[i as int] == buttons@[i as int]@);
                }
                labels.push(buttons[i].label.clone());
                i += 1;
            }
            proof {
                assert(texts(labels@) =~= button_labels(views));
            }
            let chosen: usize = match pick_by(&labels, label) {
                Some(chosen) => chosen,
                None => {
                    let failure = no_such_button(label, open.screen(), &labels);
                    *dialog = Some(open);
                    return Err(failure);
                },
            };
            proof {
                assert(button_views(buttons@)[chosen as int] == buttons@[chosen as int]@);
            }
            let button = &buttons[chosen];
            let ran = match &button.action {
                Some(action) => run(commands, &open, action, button.label.as_str()),
                None => Ok(Sent::Nothing),
            };
            let sent = match ran {
                Ok(sent) => sent,
                Err(failure) => {
                    return Err(failure);
                },
            };
            let label = button.label.clone();
            if open.stays_open_after() {
                let screen: &'static str = open.screen();
                *dialog = Some(open);
                Ok(Pressed { label, sent, stays: Some(screen) })
            } else {
                Ok(Pressed { label, sent, stays: None })
            }
        },
        None => Err(Failure::not_in_game()),
    }
}

/// What is answered of a button that was pressed.
pub open spec fn pressed_answer(label: Seq<char>, confirmed: bool, stays: Option<Seq<char>>) -> AnswerView {
    let data = Doc::object().with("label"@, Doc::Text(label)).with(
        "confirmed"@,
        Doc::Bool(confirmed),
    ).with(
        "screenAfter"@,
        match stays {
            Some(screen) => Doc::Text(screen),
            None => Doc::Null,
        },
    );
    if confirmed {
        AnswerView::full(
            "pressed \""@ + label + "\", then \""@ + RUN_COMMAND@ + "\" on "@ + CONFIRM_TITLE@,
            data.with("confirmedWith"@, Doc::Text(RUN_COMMAND@)).with(
                "confirmTitle"@,
                Doc::Text(CONFIRM_TITLE@),
            ),
        )
    } else {
        AnswerView::full("pressed "@ + quoted(label), data)
    }
}

impl Pressed {
    pub open spec fn confirmed(&self) -> bool {
        self.sent@ matches SentView::Command(_, true)
    }

    pub fn answer(&self) -> (r: Answer)
        ensures
            r@ == pressed_answer(
                self.label@,
                self.confirmed(),
                match self.stays {
                    Some(screen) => Some(screen@),
                    None => None,
                },
            ),
    {
        let confirmed: bool = match &self.sent {
            Sent::Command { confirmed, .. } => *confirmed,
            _ => false,
        };
        let stays = match self.stays {
            Some(screen) => Json::text(screen),
            None => Json::Null,
        };
        let data = Json::object().with("label", Json::Text(self.label.clone())).with(
            "confirmed",
            Json::Bool(confirmed),
        ).with("screenAfter", stays);
        if confirmed {
            let said = cat6(
                "pressed \"",
                self.label.as_str(),
                "\", then \"",
                RUN_COMMAND,
                "\" on ",
                CONFIRM_TITLE,
            );
            Answer::data(
                said,
                data.with("confirmedWith", Json::text(RUN_COMMAND)).with(
                    "confirmTitle",
                    Json::text(CONFIRM_TITLE),
                ),
            )
        } else {
            Answer::data(cat2("pressed ", quote(self.label.as_str()).as_str()), data)
        }
    }
}

/// What comes of a number asked of a slider: outside its range, with the ends and the number as the
/// client writes them, or the number the slider would stand on and whether that is the one asked for.
#[allow(inconsistent_fields)]
pub enum Slide {
    Outside { start: String, end: String, asked: String },
    Onto { slider: Slider, asked: Number, exact: bool },
}

/// What a setting of an input comes to: its kind, what it holds then, the words of the option, and
/// the number that was asked for where it is not the one held.
pub struct Setting {
    pub kind: &'static str,
    pub held: Held,
    pub display: Json,
    pub requested: Json,
}

pub struct SettingView {
    pub kind: Seq<char>,
    pub held: HeldView,
    pub display: Doc,
    pub requested: Doc,
}

impl View for Setting {
    type V = SettingView;

    open spec fn view(&self) -> SettingView {
        SettingView {
            kind: self.kind@,
            held: self.held@,
            display: self.display@,
            requested: self.requested@,
        }
    }
}

/// What is said of a value of the wrong kind, with the value as it is written.
pub open spec fn wrong_type_of(key: Seq<char>, what: Seq<char>, takes: Seq<char>, got: Seq<char>) -> FailureView {
    FailureView::refusal(
        "WRONG_VALUE_TYPE"@,
        "\""@ + key + "\" is "@ + what + " and takes "@ + takes + ", not "@ + got,
    )
}

fn wrong_type(key: &str, what: &str, takes: &str, got: &str) -> (r: Failure)
    ensures
        r@ == wrong_type_of(key@, what@, takes@, got@),
{
    let mut message = cat7("\"", key, "\" is ", what, " and takes ", takes, ", not ");
    message.append(got);
    Failure::refused("WRONG_VALUE_TYPE", message)
}

/// The option of a choice that is asked for: by its id, else by the words it shows, ignoring case.
pub open spec fn option_of(entries: Seq<(Seq<char>, Seq<char>)>, asked: Seq<char>) -> Option<int> {
    match option_by_id(entries, asked, 0) {
        Some(i) => Some(i),
        None => option_by_words(entries, lowercase_of(asked), 0),
    }
}

pub open spec fn option_by_id(entries: Seq<(Seq<char>, Seq<char>)>, asked: Seq<char>, from: int) -> Option<
    int,
>
    decreases entries.len() - from,
{
    if from < 0 || from >= entries.len() {
        None
    } else if entries[from].0 == asked {
        Some(from)
    } else {
        option_by_id(entries, asked, from + 1)
    }
}

pub open spec fn option_by_words(
    entries: Seq<(Seq<char>, Seq<char>)>,
    lowered: Seq<char>,
    from: int,
) -> Option<int>
    decreases entries.len() - from,
{
    if from < 0 || from >= entries.len() {
        None
    } else if lowercase_of(entries[from].1) == lowered {
        Some(from)
    } else {
        option_by_words(entries, lowered, from + 1)
    }
}

/// The options of a choice as a refusal lists them.
pub open spec fn options_listed(entries: Seq<(Seq<char>, Seq<char>)>) -> Seq<Seq<char>> {
    Seq::new(entries.len(), |i: int| entries[i].0 + " (\""@ + entries[i].1 + "\")"@)
}

fn find_option(entries: &Vec<Entry>, asked: &str) -> (r: Option<usize>)
    ensures
        match r {
            Some(i) => option_of(shown(entries@), asked@) == Some(i as int) && i < entries@.len(),
            None => option_of(shown(entries@), asked@) is None,
        },
{
    let ghost all = shown(entries@);
    let mut i: usize = 0;
    while i < entries.len()
        invariant
            i <= entries@.len(),
            all == shown(entries@),
            option_by_id(all, asked@, 0) == option_by_id(all, asked@, i as int),
        decreases entries@.len() - i,
    {
        proof {
            assert(all[i as int] == (entries@[i as int].id@, entries@[i as int].display@));
        }
        if same(entries[i].id.as_str(), asked) {
            return Some(i);
        }
        i += 1;
    }
    let lowered = lowercase(asked);
    let mut j: usize = 0;
    while j < entries.len()
        invariant
            j <= entries@.len(),
            all == shown(entries@),
            lowered@ == lowercase_of(asked@),
            option_by_id(all, asked@, 0) is None,
            option_by_words(all, lowered@, 0) == option_by_words(all, lowered@, j as int),
        decreases entries@.len() - j,
    {
        proof {
            assert(all[j as int] == (entries@[j as int].id@, entries@[j as int].display@));
        }
        if same(lowercase(entries[j].display.as_str()).as_str(), lowered.as_str()) {
            return Some(j);
        }
        j += 1;
    }
    None
}

fn list_options(entries: &Vec<Entry>) -> (r: String)
    ensures
        r@ == joined(options_listed(shown(entries@)), ", "@),
{
    let mut list: Vec<String> = Vec::new();
    let mut i: usize = 0;
    while i < entries.len()
        invariant
            i <= entries@.len(),
            list@.len() == i,
            forall|k: int|
                0 <= k < i ==> (#[trigger] list@[k])@ == options_listed(shown(entries@))[k],
        decreases entries@.len() - i,
    {
        list.push(
            cat4(entries[i].id.as_str(), " (\"", entries[i].display.as_str(), "\")"),
        );
        i += 1;
    }
    proof {
        assert(texts(list@) =~= options_listed(shown(entries@)));
    }
    join(&list, ", ")
}

/// What setting an input comes to.
pub open spec fn setting_of(
    key: Seq<char>,
    kind: KindView,
    wanted: Doc,
    written: Seq<char>,
    slide: Option<Slide>,
) -> Result<SettingView, FailureView> {
    match kind {
        KindView::Checkbox(_, _) => match wanted {
            Doc::Bool(ticked) => Ok(
                SettingView {
                    kind: "boolean"@,
                    held: HeldView::Checkbox(ticked),
                    display: Doc::Null,
                    requested: Doc::Null,
                },
            ),
            _ => Err(wrong_type_of(key, "a checkbox"@, "true or false"@, written)),
        },
        KindView::Choice(entries) => match wanted {
            Doc::Text(asked) => match option_of(entries, asked) {
                Some(i) => Ok(
                    SettingView {
                        kind: "single_option"@,
                        held: HeldView::Choice(entries[i].0),
                        display: Doc::Text(entries[i].1),
                        requested: Doc::Null,
                    },
                ),
                None => Err(
                    FailureView::refusal(
                        "NO_SUCH_OPTION"@,
                        "\""@ + key + "\" has no option \""@ + asked + "\"; it offers "@ + joined(
                            options_listed(entries),
                            ", "@,
                        ),
                    ),
                ),
            },
            _ => Err(
                wrong_type_of(
                    key,
                    "a cycle"@,
                    "the id or the text of one of its options"@,
                    written,
                ),
            ),
        },
        KindView::Slider(_) => match slide {
            None => Err(wrong_type_of(key, "a slider"@, "a number"@, written)),
            Some(Slide::Outside { start, end, asked }) => Err(
                FailureView::refusal(
                    "OUT_OF_RANGE"@,
                    "\""@ + key + "\" goes from "@ + start@ + " to "@ + end@ + ", and "@ + asked@
                        + " is outside it"@,
                ),
            ),
            Some(Slide::Onto { slider, asked, exact }) => Ok(
                SettingView {
                    kind: "number_range"@,
                    held: HeldView::Slider(slider.single, slider.number, slider.text@),
                    display: Doc::Null,
                    requested: if exact {
                        Doc::Null
                    } else {
                        Doc::Number(asked)
                    },
                },
            ),
        },
        KindView::Text(_, _) => Err(
            FailureView::refusal(
                "TEXT_INPUT"@,
                "\""@ + key + "\" is a text field; type into it with type-text"@,
            ),
        ),
        KindView::Unknown => Err(
            FailureView::refusal(
                "UNSUPPORTED_INPUT"@,
                "\""@ + key + "\" is an input this bot does not know how to set"@,
            ),
        ),
    }
}

/// What setting an input comes to, with the value as it is written and, for a slider that is asked
/// for a number, where a drag would leave its handle.
pub fn set_input(key: &str, kind: &Kind, wanted: &Json, written: &str, slide: Option<Slide>) -> (r: Result<
    Setting,
    Failure,
>)
    ensures
        match r {
            Ok(setting) => setting_of(key@, kind@, wanted@, written@, slide) == Ok::<
                SettingView,
                FailureView,
            >(setting@),
            Err(failure) => setting_of(key@, kind@, wanted@, written@, slide) == Err::<
                SettingView,
                FailureView,
            >(failure@),
        },
{
    match kind {
        Kind::Checkbox { .. } => match wanted {
            Json::Bool(ticked) => Ok(
                Setting {
                    kind: "boolean",
                    held: Held::Checkbox(*ticked),
                    display: Json::Null,
                    requested: Json::Null,
                },
            ),
            _ => Err(wrong_type(key, "a checkbox", "true or false", written)),
        },
        Kind::Choice { entries } => match wanted {
            Json::Text(asked) => match find_option(entries, asked.as_str()) {
                Some(i) => {
                    proof {
                        assert(shown(entries@)[i as int] == (
                            entries@[i as int].id@,
                            entries@[i as int].display@,
                        ));
                    }
                    Ok(
                        Setting {
                            kind: "single_option",
                            held: Held::Choice(entries[i].id.clone()),
                            display: Json::Text(entries[i].display.clone()),
                            requested: Json::Null,
                        },
                    )
                },
                None => Err(
                    Failure::refused(
                        "NO_SUCH_OPTION",
                        cat6(
                            "\"",
                            key,
                            "\" has no option \"",
                            asked.as_str(),
                            "\"; it offers ",
                            list_options(entries).as_str(),
                        ),
                    ),
                ),
            },
            _ => Err(
                wrong_type(key, "a cycle", "the id or the text of one of its options", written),
            ),
        },
        Kind::Slider(_) => match slide {
            None => Err(wrong_type(key, "a slider", "a number", written)),
            Some(Slide::Outside { start, end, asked }) => {
                let mut message = cat7(
                    "\"",
                    key,
                    "\" goes from ",
                    start.as_str(),
                    " to ",
                    end.as_str(),
                    ", and ",
                );
                message.append(asked.as_str());
                message.append(" is outside it");
                Err(Failure::refused("OUT_OF_RANGE", message))
            },
            Some(Slide::Onto { slider, asked, exact }) => Ok(
                Setting {
                    kind: "number_range",
                    held: Held::Slider(slider),
                    display: Json::Null,
                    requested: if exact {
                        Json::Null
                    } else {
                        Json::Number(asked)
                    },
                },
            ),
        },
        Kind::Text { .. } => Err(
            Failure::refused(
                "TEXT_INPUT",
                cat3("\"", key, "\" is a text field; type into it with type-text"),
            ),
        ),
        Kind::Unknown => Err(
            Failure::refused(
                "UNSUPPORTED_INPUT",
                cat3("\"", key, "\" is an input this bot does not know how to set"),
            ),
        ),
    }
}

/// The first input, from one on, that has a key.
pub open spec fn input_with(inputs: Seq<InputView>, key: Seq<char>, from: int) -> Option<int>
    decreases inputs.len() - from,
{
    if from < 0 || from >= inputs.len() {
        None
    } else if inputs[from].key == key {
        Some(from)
    } else {
        input_with(inputs, key, from + 1)
    }
}

/// The keys of a list of inputs.
pub open spec fn keys_of(inputs: Seq<InputView>) -> Seq<Seq<char>> {
    Seq::new(inputs.len(), |i: int| inputs[i].key)
}

/// What is said of an input a dialog does not have.
pub open spec fn no_such_input(inputs: Seq<InputView>, key: Seq<char>) -> FailureView {
    FailureView::refusal(
        "NO_SUCH_INPUT"@,
        if inputs.len() == 0 {
            "the dialog has no inputs"@
        } else {
            "the dialog has no input \""@ + key + "\"; its inputs are "@ + joined(
                keys_of(inputs),
                ", "@,
            )
        },
    )
}

/// The input of a dialog that has a key.
pub fn find_input(open: &Open, key: &str) -> (r: Result<Input, Failure>)
    ensures
        match r {
            Ok(input) => input_with(inputs_of(open.definition@), key@, 0) matches Some(i)
                && inputs_of(open.definition@)[i] == input@,
            Err(failure) => input_with(inputs_of(open.definition@), key@, 0) is None && failure@
                == no_such_input(inputs_of(open.definition@), key@),
        },
{
    let mut inputs = open.inputs();
    let ghost all = inputs_of(open.definition@);
    let mut i: usize = 0;
    let mut keys: Vec<String> = Vec::new();
    proof {
        assert(input_views(inputs@).len() == inputs@.len());
    }
    while i < inputs.len()
        invariant
            i <= inputs@.len(),
            input_views(inputs@) == all,
            all == inputs_of(open.definition@),
            keys@.len() == i,
            forall|k: int| 0 <= k < i ==> (#[trigger] keys@[k])@ == all[k].key,
            input_with(all, key@, 0) == input_with(all, key@, i as int),
        decreases inputs@.len() - i,
    {
        proof {
            assert(input_views(inputs@)[i as int] == inputs@[i as int]@);
        }
        if same(inputs[i].key.as_str(), key) {
            let input = inputs.remove(i);
            return Ok(input);
        }
        keys.push(inputs[i].key.clone());
        i += 1;
    }
    proof {
        assert(texts(keys@) =~= keys_of(all));
    }
    let message = if keys.len() == 0 {
        "the dialog has no inputs".to_owned()
    } else {
        cat4(
            "the dialog has no input \"",
            key,
            "\"; its inputs are ",
            join(&keys, ", ").as_str(),
        )
    };
    Err(Failure::refused("NO_SUCH_INPUT", message))
}

/// What is answered of an input that was set.
pub open spec fn set_data(
    input: InputView,
    setting: SettingView,
    previous: Option<HeldView>,
) -> Doc {
    Doc::object().with("key"@, Doc::Text(input.key)).with("type"@, Doc::Text(setting.kind)).with(
        "label"@,
        Doc::Text(input.label.words()),
    ).with("labelComponent"@, input.label).with("value"@, value_of(setting.held)).with(
        "previous"@,
        match previous {
            Some(held) => value_of(held),
            None => Doc::Null,
        },
    ).with("display"@, setting.display).with("requested"@, setting.requested)
}

fn held_value(held: &Held) -> (r: Json)
    ensures
        r@ == value_of(held@),
{
    match held {
        Held::Text(text) => Json::Text(text.clone()),
        Held::Choice(text) => Json::Text(text.clone()),
        Held::Checkbox(ticked) => Json::Bool(*ticked),
        Held::Slider(at) => Json::Number(at.number),
    }
}

/// Hold a setting in its input: what is answered of it.
pub fn hold_setting(open: &mut Open, input: &Input, setting: Setting) -> (r: Answer)
    ensures
        final(open).definition == old(open).definition,
        final(open).holding() == old(open).holding().insert(input.key@, setting.held@),
        r@ == AnswerView::full(
            "set "@ + quoted(input.key@),
            set_data(
                input@,
                setting@,
                if old(open).holding().dom().contains(input.key@) {
                    Some(old(open).holding()[input.key@])
                } else {
                    None
                },
            ),
        ),
{
    let previous = match open.held(input.key.as_str()) {
        Some(held) => held_value(held),
        None => Json::Null,
    };
    let value = held_value(&setting.held);
    let data = Json::object().with("key", Json::Text(input.key.clone())).with(
        "type",
        Json::text(setting.kind),
    ).with("label", Json::Text(input.label.words())).with("labelComponent", input.label.copy()).with(
        "value",
        value,
    ).with("previous", previous).with("display", setting.display).with(
        "requested",
        setting.requested,
    );
    open.hold(input.key.as_str(), setting.held);
    Answer::data(cat2("set ", quote(input.key.as_str()).as_str()), data)
}

/// An input holds what it was set to, and every other what it did.
pub proof fn setting_one_input_leaves_the_others(
    holding: Map<Seq<char>, HeldView>,
    key: Seq<char>,
    held: HeldView,
    other: Seq<char>,
)
    requires
        other != key,
    ensures
        holding.insert(key, held)[key] == held,
        holding.insert(key, held).dom().contains(other) == holding.dom().contains(other),
        holding.dom().contains(other) ==> holding.insert(key, held)[other] == holding[other],
{
}

/// What is said when there is no dialog to set an input of.
pub fn no_dialog() -> (r: Failure)
    ensures
        r@ == FailureView::refusal(
            "NO_DIALOG"@,
            "no dialog is open, so there is no input to set"@,
        ),
{
    Failure::refused("NO_DIALOG", "no dialog is open, so there is no input to set".to_owned())
}

/// The dialog again with what its inputs hold now, so a read of the feed tells what a button will
/// send.
pub fn dialog_feed(open: &Open) -> (r: feeds::Line)
    ensures
        r@ == feeds::dialog_line(
            open.definition@.put(
                "values"@,
                Doc::Object(crate::dialog::values_of(open.held.list()), Seq::empty()),
            ),
        ),
{
    let shown = open.definition.copy().put("values", open.values());
    feeds::dialog(&shown)
}

/// A command the client checks clean is sent as it is, one it would ask about is sent as confirmed, and
/// one the player would have to sign is not sent at all. A slash in front is left off.
pub proof fn a_command_is_sent_as_the_client_would(
    commands: Option<Commands>,
    command: Seq<char>,
    label: Seq<char>,
)
    ensures
        ({
            let bare = if begins(command, "/"@) {
                command.skip(1)
            } else {
                command
            };
            let sent = run_of(commands, ActionView::Command(command), label);
            &&& check_of(commands, bare) == Check::NoIssues ==> sent == Ok::<SentView, FailureView>(
                SentView::Command(bare, false),
            )
            &&& check_of(commands, bare) == Check::ParseErrors || check_of(commands, bare)
                == Check::PermissionsRequired ==> sent == Ok::<SentView, FailureView>(
                SentView::Command(bare, true),
            )
            &&& check_of(commands, bare) == Check::SignatureRequired ==> (sent matches Err(failure)
                && failure.code == "COMMAND_NOT_RUN"@)
        }),
{
}

/// A custom click goes out as it is, and what the client does on its own sends nothing.
pub proof fn a_custom_click_goes_out_as_it_is(
    commands: Option<Commands>,
    id: Seq<char>,
    payload: Option<TagView>,
    label: Seq<char>,
)
    ensures
        run_of(commands, ActionView::Custom(id, payload), label) == Ok::<SentView, FailureView>(
            SentView::Custom(id, payload),
        ),
        run_of(commands, ActionView::Local, label) == Ok::<SentView, FailureView>(
            SentView::Nothing,
        ),
{
}

/// A press runs the action of the button that was picked, with what the inputs hold.
pub proof fn a_press_runs_its_own_button(
    definition: Doc,
    holding: Map<Seq<char>, HeldView>,
    commands: Option<Commands>,
    label: Seq<char>,
)
    ensures
        match picked(button_labels(buttons_of(definition)), label) {
            None => press_of(definition, holding, commands, label) matches Err(failure)
                && failure.code == "NO_SUCH_BUTTON"@,
            Some(i) => {
                let button = buttons_of(definition)[i];
                &&& button.1 is None ==> press_of(definition, holding, commands, label) == Ok::<
                    (Seq<char>, SentView),
                    FailureView,
                >((button.0, SentView::Nothing))
                &&& button.1 matches Some(action) ==> match run_of(
                    commands,
                    action_of(definition, holding, action),
                    button.0,
                ) {
                    Ok(sent) => press_of(definition, holding, commands, label) == Ok::<
                        (Seq<char>, SentView),
                        FailureView,
                    >((button.0, sent)),
                    Err(failure) => press_of(definition, holding, commands, label) == Err::<
                        (Seq<char>, SentView),
                        FailureView,
                    >(failure),
                }
            },
        },
        definition.text_at("after_action"@) is None ==> !stays_of(definition),
{
}

/// What is picked reads as what was asked for, in whole or in part.
pub proof fn what_is_picked_reads_like_the_label(labels: Seq<Seq<char>>, label: Seq<char>)
    ensures
        picked(labels, label) matches Some(i) ==> 0 <= i < labels.len() && occurs(
            lowercase_of(labels[i]),
            lowercase_of(label),
        ),
{
    let lowered = lowercase_of(label);
    whole_reads(labels, lowered, 0);
    part_reads(labels, lowered, 0);
}

proof fn whole_reads(labels: Seq<Seq<char>>, lowered: Seq<char>, from: int)
    requires
        0 <= from,
    ensures
        whole_match(labels, lowered, from) matches Some(i) ==> from <= i < labels.len() && occurs(
            lowercase_of(labels[i]),
            lowered,
        ),
    decreases labels.len() - from,
{
    if from < labels.len() {
        whole_reads(labels, lowered, from + 1);
        if lowercase_of(labels[from]) == lowered {
            assert(lowered.subrange(0, lowered.len() as int) =~= lowered);
            assert(crate::words::stands_at(lowered, lowered, 0));
        }
    }
}

proof fn part_reads(labels: Seq<Seq<char>>, lowered: Seq<char>, from: int)
    requires
        0 <= from,
    ensures
        part_match(labels, lowered, from) matches Some(i) ==> from <= i < labels.len() && occurs(
            lowercase_of(labels[i]),
            lowered,
        ),
    decreases labels.len() - from,
{
    if from < labels.len() {
        part_reads(labels, lowered, from + 1);
    }
}

/// What a press is answered: the button, whether it had to be confirmed, and the screen that is left.
pub proof fn a_press_is_answered_with_its_button(label: Seq<char>, confirmed: bool, stays: Option<Seq<char>>)
    ensures
        ({
            let told = pressed_answer(label, confirmed, stays).data->0;
            &&& told.text_at("label"@) == Some(label)
            &&& told.bool_at("confirmed"@) == Some(confirmed)
            &&& stays matches Some(screen) ==> told.text_at("screenAfter"@) == Some(screen)
            &&& stays is None ==> told.at("screenAfter"@) == Some(Doc::Null)
            &&& confirmed ==> told.text_at("confirmedWith"@) == Some("Run Command"@) && told.text_at(
                "confirmTitle"@,
            ) == Some("Confirm Command Execution"@)
        }),
{
    broadcast use {a_field_reads_back, an_empty_object_has_nothing};
    reveal_strlit("label");
    reveal_strlit("confirmed");
    reveal_strlit("screenAfter");
    reveal_strlit("confirmedWith");
    reveal_strlit("confirmTitle");
    assert("label"@.len() == 5);
    assert("confirmed"@.len() == 9);
    assert("screenAfter"@.len() == 11);
    assert("confirmedWith"@.len() == 13);
    assert("confirmTitle"@.len() == 12);
}

/// A checkbox takes true or false, a cycle one of its options by its id or its words, a slider a number
/// of its range, and a text field and an unknown input nothing.
pub proof fn an_input_takes_its_own_kind(
    key: Seq<char>,
    kind: KindView,
    wanted: Doc,
    written: Seq<char>,
    slide: Option<Slide>,
)
    ensures
        ({
            let set = setting_of(key, kind, wanted, written, slide);
            &&& kind is Checkbox ==> (wanted matches Doc::Bool(ticked) ==> (set matches Ok(setting)
                && setting.held == HeldView::Checkbox(ticked) && setting.kind == "boolean"@))
            &&& kind is Checkbox && !(wanted is Bool) ==> (set matches Err(failure) && failure.code
                == "WRONG_VALUE_TYPE"@)
            &&& kind matches KindView::Choice(entries) ==> (wanted matches Doc::Text(asked) ==> (
            option_of(entries, asked) matches Some(i) ==> (set matches Ok(setting) && setting.held
                == HeldView::Choice(entries[i].0) && setting.display == Doc::Text(entries[i].1)
                && setting.kind == "single_option"@)))
            &&& kind matches KindView::Choice(entries) ==> (wanted matches Doc::Text(asked) ==> (
            option_of(entries, asked) is None ==> (set matches Err(failure) && failure.code
                == "NO_SUCH_OPTION"@)))
            &&& kind is Choice && !(wanted is Text) ==> (set matches Err(failure) && failure.code
                == "WRONG_VALUE_TYPE"@)
            &&& kind is Slider && slide is None ==> (set matches Err(failure) && failure.code
                == "WRONG_VALUE_TYPE"@)
            &&& kind is Slider && (slide matches Some(Slide::Outside { .. })) ==> (set matches Err(failure)
                && failure.code == "OUT_OF_RANGE"@)
            &&& kind is Slider ==> (slide matches Some(Slide::Onto { slider, asked, exact }) ==> (
            set matches Ok(setting) && setting.held == HeldView::Slider(
                slider.single,
                slider.number,
                slider.text@,
            ) && setting.kind == "number_range"@ && setting.requested == (if exact {
                Doc::Null
            } else {
                Doc::Number(asked)
            })))
            &&& kind is Text ==> (set matches Err(failure) && failure.code == "TEXT_INPUT"@)
            &&& kind is Unknown ==> (set matches Err(failure) && failure.code == "UNSUPPORTED_INPUT"@)
        }),
{
}

proof fn option_found(entries: Seq<(Seq<char>, Seq<char>)>, asked: Seq<char>, lowered: Seq<char>, from: int)
    requires
        0 <= from,
    ensures
        match option_by_id(entries, asked, from) {
            Some(i) => from <= i < entries.len() && entries[i].0 == asked,
            None => forall|i: int| from <= i < entries.len() ==> (#[trigger] entries[i]).0 != asked,
        },
        option_by_words(entries, lowered, from) matches Some(i) ==> from <= i < entries.len()
            && lowercase_of(entries[i].1) == lowered,
    decreases entries.len() - from,
{
    if from < entries.len() {
        option_found(entries, asked, lowered, from + 1);
    }
}

/// An option is asked for by its id first, and only where none has it, by what it reads.
pub proof fn an_option_goes_by_its_id_first(entries: Seq<(Seq<char>, Seq<char>)>, asked: Seq<char>, other: int)
    requires
        0 <= other < entries.len(),
    ensures
        option_of(entries, asked) matches Some(i) ==> 0 <= i < entries.len() && (entries[i].0 == asked
            || (lowercase_of(entries[i].1) == lowercase_of(asked) && entries[other].0 != asked)),
        entries[other].0 == asked ==> option_of(entries, asked) is Some,
{
    option_found(entries, asked, lowercase_of(asked), 0);
}

/// What setting an input is answered: its key, its type and label, what it holds and what it held.
pub proof fn what_was_set_is_told(input: InputView, setting: SettingView, previous: Option<HeldView>)
    ensures
        ({
            let told = set_data(input, setting, previous);
            &&& told.text_at("key"@) == Some(input.key)
            &&& told.text_at("type"@) == Some(setting.kind)
            &&& told.text_at("label"@) == Some(input.label.words())
            &&& told.at("labelComponent"@) == Some(input.label)
            &&& told.at("value"@) == Some(value_of(setting.held))
            &&& previous matches Some(held) ==> told.at("previous"@) == Some(value_of(held))
            &&& previous is None ==> told.at("previous"@) == Some(Doc::Null)
            &&& told.at("display"@) == Some(setting.display)
            &&& told.at("requested"@) == Some(setting.requested)
        }),
{
    broadcast use {a_field_reads_back, an_empty_object_has_nothing};
    reveal_strlit("key");
    reveal_strlit("type");
    reveal_strlit("label");
    reveal_strlit("labelComponent");
    reveal_strlit("value");
    reveal_strlit("previous");
    reveal_strlit("display");
    reveal_strlit("requested");
    assert("key"@.len() == 3);
    assert("type"@.len() == 4);
    assert("label"@.len() == 5);
    assert("labelComponent"@.len() == 14);
    assert("value"@.len() == 5);
    assert("previous"@.len() == 8);
    assert("display"@.len() == 7);
    assert("requested"@.len() == 9);
    assert("label"@[0] != "value"@[0]);
}

/// A command is run without the slash it may begin with.
pub proof fn a_command_is_run_without_its_slash(command: Seq<char>)
    ensures
        unslashed("/"@ + command) == command,
        command.len() > 0 && command[0] != '/' ==> unslashed(command) == command,
{
    reveal_strlit("/");
    assert("/"@.len() == 1);
    let whole = "/"@ + command;
    assert(whole.take(1) =~= "/"@);
    assert(whole.skip(1) =~= command);
    if command.len() > 0 {
        assert(command.take(1)[0] == command[0]);
    }
}

} // verus!
