//! Chat: said, and what a server wrote in it pressed.
use vstd::prelude::*;

use crate::calls::{Answer, AnswerView, Failure, FailureView};
use crate::json::{Doc, Json};
use crate::tools::args::text;
use crate::tools::dialogs::{pick_by, picked, unslashed};
use crate::words::{
    after, bare, begins, cat3, cat4, cat5, dec, decimal, join, joined, same, starts_with, texts,
};

verus! {

/// What send-chat sends, or what it says instead.
pub open spec fn message_of(args: Doc) -> Result<Seq<char>, FailureView> {
    match args.text_at("message"@) {
        None => Err(FailureView::misuse("expected a string for message"@)),
        Some(message) => if begins(message, "/"@) {
            Err(
                FailureView::refusal(
                    "NOT_A_COMMAND"@,
                    "send-chat is for plain chat. Use run-command to send a slash command."@,
                ),
            )
        } else {
            Ok(message)
        },
    }
}

/// What send-chat sends. A slash is refused rather than sent: run-command exists because the server's
/// answer to a command is chat somebody has to collect, and a command sent through here is sent with
/// nobody watching for the reply.
pub fn message(args: &Json) -> (r: Result<&str, Failure>)
    ensures
        match r {
            Ok(message) => message_of(args@) == Ok::<Seq<char>, FailureView>(message@),
            Err(failure) => message_of(args@) == Err::<Seq<char>, FailureView>(failure@),
        },
{
    match args.text_at("message") {
        None => Err(Failure::bad_args("expected a string for message".to_owned())),
        Some(message) => if starts_with(message, "/") {
            Err(
                Failure::refused(
                    "NOT_A_COMMAND",
                    "send-chat is for plain chat. Use run-command to send a slash command.".to_owned(),
                ),
            )
        } else {
            Ok(message)
        },
    }
}

/// What send-chat answers.
pub fn sent(username: &str, message: &str) -> (r: Answer)
    ensures
        r@ == AnswerView::plain("Sent as "@ + username@ + ": "@ + message@),
{
    Answer::text(cat4("Sent as ", username, ": ", message))
}

/// A dialog a click shows: one the server declared, by its id, or one written out.
pub enum Dialog {
    Declared(String),
    Inline(Json),
}

/// What a click on a run of chat does.
pub enum ClickEvent {
    OpenUrl,
    OpenFile,
    RunCommand(String),
    SuggestCommand,
    ShowDialog(Dialog),
    ChangePage,
    CopyToClipboard,
    Custom,
}

pub open spec fn action_of(event: ClickEvent) -> Seq<char> {
    match event {
        ClickEvent::OpenUrl => "open_url"@,
        ClickEvent::OpenFile => "open_file"@,
        ClickEvent::RunCommand(_) => "run_command"@,
        ClickEvent::SuggestCommand => "suggest_command"@,
        ClickEvent::ShowDialog(_) => "show_dialog"@,
        ClickEvent::ChangePage => "change_page"@,
        ClickEvent::CopyToClipboard => "copy_to_clipboard"@,
        ClickEvent::Custom => "custom"@,
    }
}

pub fn action(event: &ClickEvent) -> (r: &'static str)
    ensures
        r@ == action_of(*event),
{
    match event {
        ClickEvent::OpenUrl => "open_url",
        ClickEvent::OpenFile => "open_file",
        ClickEvent::RunCommand(_) => "run_command",
        ClickEvent::SuggestCommand => "suggest_command",
        ClickEvent::ShowDialog(_) => "show_dialog",
        ClickEvent::ChangePage => "change_page",
        ClickEvent::CopyToClipboard => "copy_to_clipboard",
        ClickEvent::Custom => "custom",
    }
}

/// A part of a chat line: what it reads as with what follows under it, the click it carries, and the
/// parts under it.
pub struct Part {
    pub text: String,
    pub event: Option<ClickEvent>,
    pub siblings: Vec<Part>,
}

/// The clickable runs of a part: what each reads as, and what pressing it does.
pub open spec fn clickables_of(part: Part) -> Seq<(Seq<char>, ClickEvent)>
    decreases part, 0int,
{
    match part.event {
        Some(event) => seq![(part.text@, event)],
        None => clickables_among(part.siblings@, part.siblings@.len() as int),
    }
}

/// Every clickable run of the first `n` of some parts.
pub open spec fn clickables_among(parts: Seq<Part>, n: int) -> Seq<(Seq<char>, ClickEvent)>
    decreases parts, n,
{
    if n <= 0 || n > parts.len() {
        Seq::empty()
    } else {
        clickables_among(parts, n - 1) + clickables_of(parts[n - 1])
    }
}

pub open spec fn click_views(list: Seq<(&str, &ClickEvent)>) -> Seq<(Seq<char>, ClickEvent)> {
    Seq::new(list.len(), |i: int| (list[i].0@, *list[i].1))
}

/// Every run of a line that carries a click event, with the text that run reads as. A run and not
/// the whole line: "Quest: chop wood [Accept] [Decline]" is one line with two of them.
pub fn clickable<'a>(part: &'a Part) -> (r: Vec<(&'a str, &'a ClickEvent)>)
    ensures
        click_views(r@) == clickables_of(*part),
    decreases *part,
{
    let mut out: Vec<(&'a str, &'a ClickEvent)> = Vec::new();
    match &part.event {
        Some(event) => {
            out.push((part.text.as_str(), event));
            proof {
                assert(click_views(out@) =~= clickables_of(*part));
            }
        },
        None => {
            let mut i: usize = 0;
            proof {
                assert(click_views(out@) =~= Seq::empty());
            }
            while i < part.siblings.len()
                invariant
                    i <= part.siblings@.len(),
                    part.event is None,
                    click_views(out@) == clickables_among(part.siblings@, i as int),
                decreases part.siblings@.len() - i,
            {
                proof {
                    assert(decreases_to!(*part => part.siblings));
                    assert(decreases_to!(part.siblings => part.siblings[i as int]));
                }
                let ghost before = out@;
                let mut some = clickable(&part.siblings[i]);
                let ghost more = some@;
                out.append(&mut some);
                proof {
                    assert(click_views(out@) =~= click_views(before) + click_views(more));
                }
                i += 1;
            }
        },
    }
    out
}

/// Every clickable run of some lines.
pub fn all_clickable<'a>(lines: &'a Vec<Part>) -> (r: Vec<(&'a str, &'a ClickEvent)>)
    ensures
        click_views(r@) == clickables_among(lines@, lines@.len() as int),
{
    let mut out: Vec<(&'a str, &'a ClickEvent)> = Vec::new();
    let mut i: usize = 0;
    proof {
        assert(click_views(out@) =~= Seq::empty());
    }
    while i < lines.len()
        invariant
            i <= lines@.len(),
            click_views(out@) == clickables_among(lines@, i as int),
        decreases lines@.len() - i,
    {
        let ghost before = out@;
        let mut some = clickable(&lines[i]);
        let ghost more = some@;
        out.append(&mut some);
        proof {
            assert(click_views(out@) =~= click_views(before) + click_views(more));
        }
        i += 1;
    }
    out
}

/// Enough of what is clickable to tell a misspelling from a menu that never appeared.
pub const MAX_LISTED: usize = 8;

pub const SETTLE_TICKS: usize = 3;

/// A clickable run in words.
pub open spec fn described(one: (Seq<char>, ClickEvent)) -> Seq<char> {
    "\""@ + one.0 + "\" ("@ + action_of(one.1) + ")"@
}

fn describe_one(text: &str, event: &ClickEvent) -> (r: String)
    ensures
        r@ == described((text@, *event)),
{
    cat5("\"", text, "\" (", action(event), ")")
}

/// The first of what is clickable, as it is listed.
pub open spec fn listed(offered: Seq<(Seq<char>, ClickEvent)>) -> Seq<Seq<char>> {
    Seq::new(
        if offered.len() < MAX_LISTED {
            offered.len()
        } else {
            MAX_LISTED as nat
        },
        |i: int| described(offered[i]),
    )
}

/// What is clickable, in words.
pub open spec fn described_all(offered: Seq<(Seq<char>, ClickEvent)>) -> Seq<char> {
    if offered.len() == 0 {
        "Nothing said in chat since this bot joined is clickable at all."@
    } else {
        "What is: "@ + joined(listed(offered), ", "@) + (if offered.len() > MAX_LISTED {
            ", and "@ + dec(offered.len() - MAX_LISTED) + " more"@
        } else {
            ""@
        }) + "."@
    }
}

pub fn describe(offered: &Vec<(&str, &ClickEvent)>) -> (r: String)
    ensures
        r@ == described_all(click_views(offered@)),
{
    let ghost all = click_views(offered@);
    if offered.len() == 0 {
        return "Nothing said in chat since this bot joined is clickable at all.".to_owned();
    }
    let mut out: Vec<String> = Vec::new();
    let mut i: usize = 0;
    while i < offered.len() && i < MAX_LISTED
        invariant
            i <= offered@.len(),
            i <= MAX_LISTED,
            all == click_views(offered@),
            out@.len() == i,
            forall|k: int| 0 <= k < i ==> (#[trigger] out@[k])@ == listed(all)[k],
        decreases offered@.len() - i,
    {
        let (text, event) = offered[i];
        out.push(describe_one(text, event));
        i += 1;
    }
    proof {
        assert(texts(out@) =~= listed(all));
    }
    let more: String = if offered.len() > MAX_LISTED {
        cat3(", and ", decimal((offered.len() - MAX_LISTED) as u64).as_str(), " more")
    } else {
        "".to_owned()
    };
    cat4("What is: ", join(&out, ", ").as_str(), more.as_str(), ".")
}

pub open spec fn click_texts(offered: Seq<(Seq<char>, ClickEvent)>) -> Seq<Seq<char>> {
    Seq::new(offered.len(), |i: int| offered[i].0)
}

/// What is said when nothing clickable has the words.
pub open spec fn no_click(offered: Seq<(Seq<char>, ClickEvent)>, wanted: Seq<char>) -> FailureView {
    FailureView::refusal(
        "NO_SUCH_CHAT_CLICK"@,
        "no chat line on screen has a clickable \""@ + wanted + "\" on it. "@ + described_all(
            offered,
        ),
    )
}

/// The clickable run that is meant: the first that reads as wanted whatever the case, or else the
/// first that has it in it.
pub fn pick(offered: &Vec<(&str, &ClickEvent)>, wanted: &str) -> (r: Result<usize, Failure>)
    ensures
        match r {
            Ok(at) => picked(click_texts(click_views(offered@)), wanted@) == Some(at as int) && at
                < offered@.len(),
            Err(failure) => picked(click_texts(click_views(offered@)), wanted@) is None && failure@
                == no_click(click_views(offered@), wanted@),
        },
{
    let ghost all = click_texts(click_views(offered@));
    let mut labels: Vec<String> = Vec::new();
    let mut i: usize = 0;
    while i < offered.len()
        invariant
            i <= offered@.len(),
            all == click_texts(click_views(offered@)),
            labels@.len() == i,
            forall|k: int| 0 <= k < i ==> (#[trigger] labels@[k])@ == all[k],
        decreases offered@.len() - i,
    {
        labels.push(offered[i].0.to_owned());
        i += 1;
    }
    proof {
        assert(texts(labels@) =~= all);
    }
    match pick_by(&labels, wanted) {
        Some(at) => Ok(at),
        None => Err(
            Failure::refused(
                "NO_SUCH_CHAT_CLICK",
                cat4(
                    "no chat line on screen has a clickable \"",
                    wanted,
                    "\" on it. ",
                    describe(offered).as_str(),
                ),
            ),
        ),
    }
}

/// What pressing a run does.
pub enum Pressing<'a> {
    /// Send this command, which has no slash.
    Run(String),
    /// Show this dialog.
    Show(&'a Dialog),
}

/// What pressing a run of a chat line does: only the clicks the game makes inside itself are pressed.
/// The rest leave it -- a browser, a file, the clipboard -- and a line from a server does not get to
/// send the host anywhere.
pub fn press<'a>(text: &str, event: &'a ClickEvent) -> (r: Result<Pressing<'a>, Failure>)
    ensures
        match *event {
            ClickEvent::RunCommand(command) => r matches Ok(Pressing::Run(sent)) && sent@
                == unslashed(command@),
            ClickEvent::ShowDialog(dialog) => r matches Ok(Pressing::Show(shown)) && *shown
                == dialog,
            other => r matches Err(failure) && failure@ == FailureView::refusal(
                "CLICK_NOT_IN_GAME"@,
                "\""@ + text@ + "\" is a "@ + action_of(other)
                    + " click, and only run_command and show_dialog are pressed from here. The rest leave the game -- a browser, a file, the clipboard -- which is not this bot's to do."@,
            ),
        },
{
    match event {
        ClickEvent::RunCommand(command) => {
            if starts_with(command.as_str(), "/") {
                proof {
                    reveal_strlit("/");
                }
                Ok(Pressing::Run(after(command.as_str(), 1)))
            } else {
                Ok(Pressing::Run(command.clone()))
            }
        },
        ClickEvent::ShowDialog(dialog) => Ok(Pressing::Show(dialog)),
        other => Err(
            Failure::refused(
                "CLICK_NOT_IN_GAME",
                cat5(
                    "\"",
                    text,
                    "\" is a ",
                    action(other),
                    " click, and only run_command and show_dialog are pressed from here. The rest leave the game -- a browser, a file, the clipboard -- which is not this bot's to do.",
                ),
            ),
        ),
    }
}

/// What is said of a dialog the server never declared.
pub fn no_such_dialog(text: &str) -> (r: Failure)
    ensures
        r@ == FailureView::refusal(
            "NO_SUCH_DIALOG"@,
            "\""@ + text@
                + "\" shows a dialog the server never declared, so there is nothing to open."@,
        ),
{
    Failure::refused(
        "NO_SUCH_DIALOG",
        cat3(
            "\"",
            text,
            "\" shows a dialog the server never declared, so there is nothing to open.",
        ),
    )
}

/// The client's own name for the screen a dialog is drawn on.
pub open spec fn screen_of(dialog: Doc) -> Seq<char> {
    match dialog.text_at("type"@) {
        Some(kind) => if bare(kind) == "multi_action"@ {
            "MultiButtonDialogScreen"@
        } else if bare(kind) == "dialog_list"@ {
            "DialogListDialogScreen"@
        } else if bare(kind) == "server_links"@ {
            "ServerLinksDialogScreen"@
        } else {
            "SimpleDialogScreen"@
        },
        None => "SimpleDialogScreen"@,
    }
}

/// The client's own name for the screen a dialog is drawn on, which is what the other kind of bot
/// says opened.
pub fn screen(dialog: &Json) -> (r: &'static str)
    ensures
        r@ == screen_of(dialog@),
{
    match dialog.text_at("type") {
        Some(kind) => {
            let kind = crate::tools::args::plain(kind);
            if same(kind, "multi_action") {
                "MultiButtonDialogScreen"
            } else if same(kind, "dialog_list") {
                "DialogListDialogScreen"
            } else if same(kind, "server_links") {
                "ServerLinksDialogScreen"
            } else {
                "SimpleDialogScreen"
            }
        },
        None => "SimpleDialogScreen",
    }
}

/// What click-chat answers: what was clicked, and the screen that opened where one did.
pub fn clicked(text: &str, event: &ClickEvent, opened: Option<&str>) -> (r: Answer)
    ensures
        r@ == AnswerView::plain(
            "clicked "@ + described((text@, *event)) + (match opened {
                Some(screen) => ", and "@ + screen@ + " opened"@,
                None => ""@,
            }) + "."@,
        ),
{
    let tail: String = match opened {
        Some(screen) => cat3(", and ", screen, " opened"),
        None => "".to_owned(),
    };
    Answer::text(cat4("clicked ", describe_one(text, event).as_str(), tail.as_str(), "."))
}

/// Plain chat goes out as it is, and a slash command does not.
pub proof fn chat_is_no_command(args: Doc)
    ensures
        args.text_at("message"@) is None ==> (message_of(args) matches Err(failure) && failure.code
            == "BAD_ARGS"@),
        args.text_at("message"@) matches Some(message) ==> (begins(message, "/"@) ==> (message_of(args) matches Err(
            failure,
        ) && failure.code == "NOT_A_COMMAND"@)) && (!begins(message, "/"@) ==> message_of(args)
            == Ok::<Seq<char>, FailureView>(message)),
{
}

/// Each click goes by the name the game has for it.
pub proof fn a_click_goes_by_its_name(event: ClickEvent)
    ensures
        event is OpenUrl ==> action_of(event) == "open_url"@,
        event is OpenFile ==> action_of(event) == "open_file"@,
        event is RunCommand ==> action_of(event) == "run_command"@,
        event is SuggestCommand ==> action_of(event) == "suggest_command"@,
        event is ShowDialog ==> action_of(event) == "show_dialog"@,
        event is ChangePage ==> action_of(event) == "change_page"@,
        event is CopyToClipboard ==> action_of(event) == "copy_to_clipboard"@,
        event is Custom ==> action_of(event) == "custom"@,
{
}

/// What can be clicked on a line is each run that has a click, whole, with the words it reads; a run
/// without one is looked through for those in it.
pub proof fn a_run_is_clicked_whole(part: Part)
    ensures
        part.event matches Some(event) ==> clickables_of(part) == seq![(part.text@, event)],
        part.event is None ==> clickables_of(part) == clickables_among(
            part.siblings@,
            part.siblings@.len() as int,
        ),
        part.event is None && part.siblings@.len() == 0 ==> clickables_of(part).len() == 0,
        part.event is None && part.siblings@.len() > 0 ==> clickables_of(part) == clickables_among(
            part.siblings@,
            part.siblings@.len() - 1,
        ) + clickables_of(part.siblings@.last()),
{
}

/// What can be clicked is listed with what it does, eight of it at most.
pub proof fn what_can_be_clicked_is_listed(offered: Seq<(Seq<char>, ClickEvent)>, i: int)
    ensures
        listed(offered).len() <= 8,
        offered.len() <= 8 ==> listed(offered).len() == offered.len(),
        0 <= i < listed(offered).len() ==> listed(offered)[i] == "\""@ + offered[i].0 + "\" ("@
            + action_of(offered[i].1) + ")"@,
        no_click(offered, "x"@).code == "NO_SUCH_CHAT_CLICK"@,
        MAX_LISTED == 8,
        SETTLE_TICKS == 3,
{
}

/// A dialog is drawn on the screen of its type, and any other type on the plain one.
pub proof fn a_dialog_has_the_screen_of_its_type(dialog: Doc)
    ensures
        dialog.text_at("type"@) is None ==> screen_of(dialog) == "SimpleDialogScreen"@,
        dialog.text_at("type"@) matches Some(kind) ==> (bare(kind) == "multi_action"@ ==> screen_of(
            dialog,
        ) == "MultiButtonDialogScreen"@) && (bare(kind) == "dialog_list"@ ==> screen_of(dialog)
            == "DialogListDialogScreen"@) && (bare(kind) == "server_links"@ ==> screen_of(dialog)
            == "ServerLinksDialogScreen"@) && (bare(kind) != "multi_action"@ && bare(kind)
            != "dialog_list"@ && bare(kind) != "server_links"@ ==> screen_of(dialog)
            == "SimpleDialogScreen"@),
{
    reveal_strlit("multi_action");
    reveal_strlit("dialog_list");
    reveal_strlit("server_links");
    assert("multi_action"@.len() == 12);
    assert("dialog_list"@.len() == 11);
    assert("server_links"@.len() == 12);
    assert("multi_action"@[0] != "server_links"@[0]);
}

} // verus!
