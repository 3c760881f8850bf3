//! From an update to its reply: what a command leads to, and how the
//! outcome of a call to the download manager is reported.

use vstd::prelude::*;
use crate::command::help_text;
use crate::command::Command;
use crate::command::CommandView;
use crate::parser::parse_spec;
use crate::parser::ParseError;
use crate::parser::ParseErrorView;
use crate::text::decimal_text;
use crate::text::lemma_occurs_between;
use crate::text::occurs_in;
use crate::text::push_decimal;
use crate::ChatId;

verus! {

/// How loud a log entry is.
#[derive(Clone, Copy, Debug, PartialEq, Eq, Structural)]
pub enum LogLevel {
    Debug,
    Warn,
    Error,
}

/// One line for the log.
#[derive(Clone, Debug, PartialEq, Eq)]
pub struct LogEntry {
    pub level: LogLevel,
    pub text: String,
}

pub struct LogEntryView {
    pub level: LogLevel,
    pub text: Seq<char>,
}

impl View for LogEntry {
    type V = LogEntryView;

    open spec fn view(&self) -> LogEntryView {
        LogEntryView { level: self.level, text: self.text@ }
    }
}

/// A call to the download manager that a command asks for.
#[derive(Clone, Debug, PartialEq, Eq)]
pub enum RpcRequest {
    GetVersion,
    AddUri(String),
    TellStatus(String),
}

pub enum RpcRequestView {
    GetVersion,
    AddUri(Seq<char>),
    TellStatus(Seq<char>),
}

impl View for RpcRequest {
    type V = RpcRequestView;

    open spec fn view(&self) -> RpcRequestView {
        match self {
            RpcRequest::GetVersion => RpcRequestView::GetVersion,
            RpcRequest::AddUri(uri) => RpcRequestView::AddUri(uri@),
            RpcRequest::TellStatus(gid) => RpcRequestView::TellStatus(gid@),
        }
    }
}

/// How a call to the download manager ended: with the answer, ready to be
/// shown, or with the description of what went wrong.
#[derive(Clone, Debug, PartialEq, Eq)]
pub enum RpcOutcome {
    Success(String),
    RemoteError(String),
}

pub enum RpcOutcomeView {
    Success(Seq<char>),
    RemoteError(Seq<char>),
}

impl View for RpcOutcome {
    type V = RpcOutcomeView;

    open spec fn view(&self) -> RpcOutcomeView {
        match self {
            RpcOutcome::Success(answer) => RpcOutcomeView::Success(answer@),
            RpcOutcome::RemoteError(detail) => RpcOutcomeView::RemoteError(detail@),
        }
    }
}

/// The one message that answers a command, and the log entry that goes with
/// it where the command failed.
#[derive(Clone, Debug, PartialEq, Eq)]
pub struct Reply {
    pub text: String,
    pub log: Option<LogEntry>,
}

pub struct ReplyView {
    pub text: Seq<char>,
    pub log: Option<LogEntryView>,
}

impl View for Reply {
    type V = ReplyView;

    open spec fn view(&self) -> ReplyView {
        ReplyView {
            text: self.text@,
            log: match self.log {
                Some(entry) => Some(entry@),
                None => None,
            },
        }
    }
}

/// What a command leads to first: its reply, or a call whose outcome the
/// reply waits for.
#[derive(Clone, Debug, PartialEq, Eq)]
pub enum Step {
    Answer(Reply),
    Call(RpcRequest),
}

pub enum StepView {
    Answer(ReplyView),
    Call(RpcRequestView),
}

impl View for Step {
    type V = StepView;

    open spec fn view(&self) -> StepView {
        match self {
            Step::Answer(reply) => StepView::Answer(reply@),
            Step::Call(request) => StepView::Call(request@),
        }
    }
}

/// A reply that nothing is logged for.
pub open spec fn plain(text: Seq<char>) -> ReplyView {
    ReplyView { text, log: None }
}

/// A reply that reports a failure: the same text goes to the chat and, as an
/// error, to the log.
pub open spec fn failure(text: Seq<char>) -> ReplyView {
    ReplyView { text, log: Some(LogEntryView { level: LogLevel::Error, text }) }
}

/// The first step of each command.
pub open spec fn plan_spec(command: CommandView) -> StepView {
    match command {
        CommandView::Help => StepView::Answer(plain(help_text())),
        CommandView::Username(name) => StepView::Answer(
            plain("Your username is @"@ + name + "."@),
        ),
        CommandView::UsernameAndAge { username, age } => StepView::Answer(
            plain(
                "Your username is @"@ + username + " and age is "@ + decimal_text(age as nat)
                    + "."@,
            ),
        ),
        CommandView::Aria2Version => StepView::Call(RpcRequestView::GetVersion),
        CommandView::Download(uri) => StepView::Call(RpcRequestView::AddUri(uri)),
        CommandView::DownloadStatus(gid) => StepView::Call(RpcRequestView::TellStatus(gid)),
    }
}

/// The reply to a command whose call ended with `outcome`.
pub open spec fn complete_spec(request: RpcRequestView, outcome: RpcOutcomeView) -> ReplyView {
    match (request, outcome) {
        (RpcRequestView::GetVersion, RpcOutcomeView::Success(version)) => plain(version),
        (RpcRequestView::GetVersion, RpcOutcomeView::RemoteError(detail)) => failure(
            "get version err: "@ + detail,
        ),
        (RpcRequestView::AddUri(uri), RpcOutcomeView::Success(gid)) => plain(
            "gid: "@ + gid + "\nurl: "@ + uri,
        ),
        (RpcRequestView::AddUri(uri), RpcOutcomeView::RemoteError(detail)) => failure(
            "download "@ + uri + " err: "@ + detail,
        ),
        (RpcRequestView::TellStatus(_), RpcOutcomeView::Success(status)) => plain(status),
        (RpcRequestView::TellStatus(gid), RpcOutcomeView::RemoteError(detail)) => failure(
            "get download status err: "@ + detail + ", gid: "@ + gid,
        ),
    }
}

fn answer_plainly(text: String) -> (reply: Reply)
    ensures
        reply@ == plain(text@),
{
    Reply { text, log: None }
}

fn answer_failure(text: String) -> (reply: Reply)
    ensures
        reply@ == failure(text@),
{
    let entry = LogEntry { level: LogLevel::Error, text: text.clone() };
    Reply { text, log: Some(entry) }
}

/// Decides what a parsed command leads to: the commands that need nothing
/// from the download manager are answered at once, each of the others asks
/// for one call and hands it the argument as it came.
pub fn plan(command: Command) -> (step: Step)
    ensures
        step@ == plan_spec(command@),
{
    match command {
        Command::Help => Step::Answer(answer_plainly(Command::descriptions())),
        Command::Username(name) => {
            let mut text = String::from_str("Your username is @");
            text.append(name.as_str());
            text.append(".");
            Step::Answer(answer_plainly(text))
        },
        Command::UsernameAndAge { username, age } => {
            let mut text = String::from_str("Your username is @");
            text.append(username.as_str());
            text.append(" and age is ");
            push_decimal(&mut text, age as u64);
            text.append(".");
            Step::Answer(answer_plainly(text))
        },
        Command::Aria2Version => Step::Call(RpcRequest::GetVersion),
        Command::Download(uri) => Step::Call(RpcRequest::AddUri(uri)),
        Command::DownloadStatus(gid) => Step::Call(RpcRequest::TellStatus(gid)),
    }
}

/// Writes the reply to a command once its call has ended: the answer as it
/// came where the call succeeded, and else a text that names the operation,
/// its argument and the failure, which is logged as an error too.
pub fn complete(request: RpcRequest, outcome: RpcOutcome) -> (reply: Reply)
    ensures
        reply@ == complete_spec(request@, outcome@),
{
    match request {
        RpcRequest::GetVersion => match outcome {
            RpcOutcome::Success(version) => answer_plainly(version),
            RpcOutcome::RemoteError(detail) => {
                let mut text = String::from_str("get version err: ");
                text.append(detail.as_str());
                answer_failure(text)
            },
        },
        RpcRequest::AddUri(uri) => match outcome {
            RpcOutcome::Success(gid) => {
                let mut text = String::from_str("gid: ");
                text.append(gid.as_str());
                text.append("\nurl: ");
                text.append(uri.as_str());
                answer_plainly(text)
            },
            RpcOutcome::RemoteError(detail) => {
                let mut text = String::from_str("download ");
                text.append(uri.as_str());
                text.append(" err: ");
                text.append(detail.as_str());
                answer_failure(text)
            },
        },
        RpcRequest::TellStatus(gid) => match outcome {
            RpcOutcome::Success(status) => answer_plainly(status),
            RpcOutcome::RemoteError(detail) => {
                let mut text = String::from_str("get download status err: ");
                text.append(detail.as_str());
                text.append(", gid: ");
                text.append(gid.as_str());
                answer_failure(text)
            },
        },
    }
}

/// One inbound update: the chat it came from and its text, where it has one.
#[derive(Clone, Debug, PartialEq, Eq)]
pub struct Update {
    pub chat: ChatId,
    pub text: Option<String>,
}

/// A reply on its way to the chat that asked.
#[derive(Clone, Debug, PartialEq, Eq)]
pub struct Outgoing {
    pub chat: ChatId,
    pub reply: Reply,
}

pub struct OutgoingView {
    pub chat: ChatId,
    pub reply: ReplyView,
}

impl View for Outgoing {
    type V = OutgoingView;

    open spec fn view(&self) -> OutgoingView {
        OutgoingView { chat: self.chat, reply: self.reply@ }
    }
}

/// A command that waits for the outcome of its call.
#[derive(Clone, Debug, PartialEq, Eq)]
pub struct Pending {
    pub chat: ChatId,
    pub request: RpcRequest,
}

pub struct PendingView {
    pub chat: ChatId,
    pub request: RpcRequestView,
}

impl View for Pending {
    type V = PendingView;

    open spec fn view(&self) -> PendingView {
        PendingView { chat: self.chat, request: self.request@ }
    }
}

/// What becomes of an update.
#[derive(Clone, Debug, PartialEq, Eq)]
pub enum Handling {
    /// It was a command that is answered at once.
    Send(Outgoing),
    /// It was a command that needs a call first.
    Await(Pending),
    /// It was no command: it had no text, or its text was refused for the
    /// reason given. Nothing is sent to the chat.
    Unhandled(Option<ParseError>),
}

pub enum HandlingView {
    Send(OutgoingView),
    Await(PendingView),
    Unhandled(Option<ParseErrorView>),
}

impl View for Handling {
    type V = HandlingView;

    open spec fn view(&self) -> HandlingView {
        match self {
            Handling::Send(outgoing) => HandlingView::Send(outgoing@),
            Handling::Await(pending) => HandlingView::Await(pending@),
            Handling::Unhandled(reason) => HandlingView::Unhandled(
                match reason {
                    Some(error) => Some(error@),
                    None => None,
                },
            ),
        }
    }
}

/// What becomes of an update from `chat` with the text `text`, for the bot
/// called `bot`.
pub open spec fn handle_spec(chat: ChatId, text: Option<Seq<char>>, bot: Seq<char>) -> HandlingView {
    match text {
        None => HandlingView::Unhandled(None),
        Some(written) => match parse_spec(written, bot) {
            Err(error) => HandlingView::Unhandled(Some(error)),
            Ok(command) => match plan_spec(command) {
                StepView::Answer(reply) => HandlingView::Send(OutgoingView { chat, reply }),
                StepView::Call(request) => HandlingView::Await(PendingView { chat, request }),
            },
        },
    }
}

/// The text of an update as a sequence of characters.
pub open spec fn text_view(text: Option<String>) -> Option<Seq<char>> {
    match text {
        Some(written) => Some(written@),
        None => None,
    }
}

/// Handles one update: its text is read as a command and the command is
/// planned, with the chat of the update as the chat of the reply. An update
/// that is no command leads to nothing but the reason.
pub fn handle(update: &Update, bot_name: &str) -> (handling: Handling)
    ensures
        handling@ == handle_spec(update.chat, text_view(update.text), bot_name@),
{
    match &update.text {
        None => Handling::Unhandled(None),
        Some(written) => match Command::parse(written.as_str(), bot_name) {
            Err(error) => Handling::Unhandled(Some(error)),
            Ok(command) => match plan(command) {
                Step::Answer(reply) => Handling::Send(Outgoing { chat: update.chat, reply }),
                Step::Call(request) => Handling::Await(Pending { chat: update.chat, request }),
            },
        },
    }
}

/// Ends a command that waited for its call: the reply goes to the chat that
/// the command came from.
pub fn resume(pending: Pending, outcome: RpcOutcome) -> (outgoing: Outgoing)
    ensures
        outgoing@ == (OutgoingView {
            chat: pending.chat,
            reply: complete_spec(pending.request@, outcome@),
        }),
{
    let chat = pending.chat;
    Outgoing { chat, reply: complete(pending.request, outcome) }
}

/// The reply to a download that the manager took holds the handle and the
/// address, and nothing is logged.
pub proof fn lemma_download_reply_holds_handle_and_uri(uri: Seq<char>, gid: Seq<char>)
    ensures
        occurs_in(
            gid,
            complete_spec(RpcRequestView::AddUri(uri), RpcOutcomeView::Success(gid)).text,
        ),
        occurs_in(
            uri,
            complete_spec(RpcRequestView::AddUri(uri), RpcOutcomeView::Success(gid)).text,
        ),
        complete_spec(RpcRequestView::AddUri(uri), RpcOutcomeView::Success(gid)).log is None,
{
    let text = complete_spec(RpcRequestView::AddUri(uri), RpcOutcomeView::Success(gid)).text;
    let none = Seq::<char>::empty();
    lemma_occurs_between("gid: "@, gid, "\nurl: "@ + uri);
    assert("gid: "@ + gid + ("\nurl: "@ + uri) =~= text);
    lemma_occurs_between("gid: "@ + gid + "\nurl: "@, uri, none);
    assert("gid: "@ + gid + "\nurl: "@ + uri + none =~= text);
}

/// A call that failed is reported: the reply holds the description of the
/// failure and the argument of the call, and the same text is logged, once,
/// as an error.
pub proof fn lemma_failure_is_reported(request: RpcRequestView, detail: Seq<char>)
    ensures
        occurs_in(detail, complete_spec(request, RpcOutcomeView::RemoteError(detail)).text),
        request matches RpcRequestView::AddUri(uri) ==> occurs_in(
            uri,
            complete_spec(request, RpcOutcomeView::RemoteError(detail)).text,
        ),
        request matches RpcRequestView::TellStatus(gid) ==> occurs_in(
            gid,
            complete_spec(request, RpcOutcomeView::RemoteError(detail)).text,
        ),
        complete_spec(request, RpcOutcomeView::RemoteError(detail)).log == Some(
            LogEntryView {
                level: LogLevel::Error,
                text: complete_spec(request, RpcOutcomeView::RemoteError(detail)).text,
            },
        ),
{
    let text = complete_spec(request, RpcOutcomeView::RemoteError(detail)).text;
    let none = Seq::<char>::empty();
    match request {
        RpcRequestView::GetVersion => {
            lemma_occurs_between("get version err: "@, detail, none);
            assert("get version err: "@ + detail + none =~= text);
        },
        RpcRequestView::AddUri(uri) => {
            lemma_occurs_between("download "@, uri, " err: "@ + detail);
            assert("download "@ + uri + (" err: "@ + detail) =~= text);
            lemma_occurs_between("download "@ + uri + " err: "@, detail, none);
            assert("download "@ + uri + " err: "@ + detail + none =~= text);
        },
        RpcRequestView::TellStatus(gid) => {
            lemma_occurs_between("get download status err: "@, detail, ", gid: "@ + gid);
            assert("get download status err: "@ + detail + (", gid: "@ + gid) =~= text);
            lemma_occurs_between("get download status err: "@ + detail + ", gid: "@, gid, none);
            assert("get download status err: "@ + detail + ", gid: "@ + gid + none =~= text);
        },
    }
}

/// A command that needs nothing from the download manager is answered at
/// once and without a log entry: it cannot fail.
pub proof fn lemma_local_commands_never_fail(command: CommandView)
    requires
        command is Help || command is Username || command is UsernameAndAge,
    ensures
        plan_spec(command) is Answer,
        plan_spec(command)->Answer_0.log is None,
{
}

/// An update is answered exactly when its text is a command: then it is
/// answered at once or waits for its one call, and the chat of the answer is
/// the chat that it came from; else nothing is sent.
pub proof fn lemma_commands_and_only_commands_are_answered(
    chat: ChatId,
    text: Option<Seq<char>>,
    bot: Seq<char>,
)
    ensures
        match handle_spec(chat, text, bot) {
            HandlingView::Send(outgoing) => text is Some && parse_spec(text.unwrap(), bot) is Ok
                && outgoing.chat == chat,
            HandlingView::Await(pending) => text is Some && parse_spec(text.unwrap(), bot) is Ok
                && pending.chat == chat,
            HandlingView::Unhandled(_) => text is None || parse_spec(text.unwrap(), bot) is Err,
        },
{
}

} // verus!
