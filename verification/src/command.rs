//! The commands of the chat protocol, their table, and the help text.

use vstd::prelude::*;
use teloxide::utils::command::CommandDescription;
use teloxide::utils::command::CommandDescriptions;
use crate::text::lemma_occurs_between;
use crate::text::lemma_occurs_within;
use crate::text::occurs_in;

verus! {

/// One command of the chat protocol, with the fields taken from the message.
#[derive(Clone, Debug, PartialEq, Eq)]
pub enum Command {
    Help,
    Username(String),
    UsernameAndAge { username: String, age: u8 },
    Aria2Version,
    Download(String),
    DownloadStatus(String),
}

/// A `Command` as a mathematical value: strings are sequences of characters.
pub enum CommandView {
    Help,
    Username(Seq<char>),
    UsernameAndAge { username: Seq<char>, age: u8 },
    Aria2Version,
    Download(Seq<char>),
    DownloadStatus(Seq<char>),
}

impl View for Command {
    type V = CommandView;

    open spec fn view(&self) -> CommandView {
        match self {
            Command::Help => CommandView::Help,
            Command::Username(name) => CommandView::Username(name@),
            Command::UsernameAndAge { username, age } => CommandView::UsernameAndAge {
                username: username@,
                age: *age,
            },
            Command::Aria2Version => CommandView::Aria2Version,
            Command::Download(uri) => CommandView::Download(uri@),
            Command::DownloadStatus(gid) => CommandView::DownloadStatus(gid@),
        }
    }
}

/// Which command a message names, without its arguments.
#[derive(Clone, Copy, Debug, PartialEq, Eq, Structural)]
pub enum CommandKind {
    Help,
    Username,
    UsernameAndAge,
    Aria2Version,
    Download,
    DownloadStatus,
}

/// The heading of the help text.
pub open spec fn heading() -> Seq<char> {
    "These commands are supported:"@
}

/// What every command starts with.
pub open spec fn prefix() -> Seq<char> {
    "/"@
}

/// The commands in the order in which the help text lists them. The parser
/// looks a name up in this table and the help text is written from it.
pub open spec fn command_table() -> Seq<CommandKind> {
    seq![
        CommandKind::Help,
        CommandKind::Username,
        CommandKind::UsernameAndAge,
        CommandKind::Aria2Version,
        CommandKind::Download,
        CommandKind::DownloadStatus,
    ]
}

impl CommandKind {
    /// The name by which a message calls this command, in small letters.
    pub open spec fn spec_name(self) -> Seq<char> {
        match self {
            CommandKind::Help => "help"@,
            CommandKind::Username => "username"@,
            CommandKind::UsernameAndAge => "usernameandage"@,
            CommandKind::Aria2Version => "aria2version"@,
            CommandKind::Download => "download"@,
            CommandKind::DownloadStatus => "downloadstatus"@,
        }
    }

    /// The line of explanation that the help text gives for this command.
    pub open spec fn spec_description(self) -> Seq<char> {
        match self {
            CommandKind::Help => "display this text."@,
            CommandKind::Username => "handle a username."@,
            CommandKind::UsernameAndAge => "handle a username and an age."@,
            CommandKind::Aria2Version => "get aria2 version"@,
            CommandKind::Download => "download file, params: uri"@,
            CommandKind::DownloadStatus => "download status, params: gid"@,
        }
    }

    pub fn name(self) -> (s: &'static str)
        ensures
            s@ == self.spec_name(),
    {
        match self {
            CommandKind::Help => "help",
            CommandKind::Username => "username",
            CommandKind::UsernameAndAge => "usernameandage",
            CommandKind::Aria2Version => "aria2version",
            CommandKind::Download => "download",
            CommandKind::DownloadStatus => "downloadstatus",
        }
    }

    pub fn description(self) -> (s: &'static str)
        ensures
            s@ == self.spec_description(),
    {
        match self {
            CommandKind::Help => "display this text.",
            CommandKind::Username => "handle a username.",
            CommandKind::UsernameAndAge => "handle a username and an age.",
            CommandKind::Aria2Version => "get aria2 version",
            CommandKind::Download => "download file, params: uri",
            CommandKind::DownloadStatus => "download status, params: gid",
        }
    }

    /// The table of commands.
    pub fn all() -> (table: Vec<CommandKind>)
        ensures
            table@ == command_table(),
    {
        let table = vec![
            CommandKind::Help,
            CommandKind::Username,
            CommandKind::UsernameAndAge,
            CommandKind::Aria2Version,
            CommandKind::Download,
            CommandKind::DownloadStatus,
        ];
        assert(table@ =~= command_table());
        table
    }
}

/// One row of a listing of commands: a command's name and its description.
pub type Row = (&'static str, &'static str);

/// The rows of a listing as sequences of characters.
pub open spec fn rows_view(rows: Seq<Row>) -> Seq<(Seq<char>, Seq<char>)> {
    rows.map_values(|r: Row| (r.0@, r.1@))
}

/// The line that a listing gives to one command.
pub open spec fn listing_line(lead: Seq<char>, name: Seq<char>, description: Seq<char>) -> Seq<
    char,
> {
    if description.len() == 0 {
        lead + name
    } else {
        lead + name + " \u{2014} "@ + description
    }
}

/// The lines of a listing, one per row, with a line feed between two of them.
pub open spec fn listing_lines(lead: Seq<char>, rows: Seq<(Seq<char>, Seq<char>)>) -> Seq<char>
    decreases rows.len(),
{
    if rows.len() == 0 {
        Seq::empty()
    } else if rows.len() == 1 {
        listing_line(lead, rows[0].0, rows[0].1)
    } else {
        listing_lines(lead, rows.drop_last()) + "\n"@ + listing_line(
            lead,
            rows.last().0,
            rows.last().1,
        )
    }
}

/// A listing of commands: the heading, an empty line, and the lines.
pub open spec fn listing(title: Seq<char>, lead: Seq<char>, rows: Seq<(Seq<char>, Seq<char>)>) -> Seq<
    char,
> {
    title + "\n\n"@ + listing_lines(lead, rows)
}

/// Writes a listing of commands with teloxide's `CommandDescriptions`: the
/// rows go to `CommandDescriptions::new`, the heading to `global_description`,
/// and the text is what `Display` (through `to_string`) gives for the value.
/// Trusted: that this text is the heading, two line feeds, and for each row
/// the prefix, the name and, where the description is not empty, a dash
/// between two blanks and the description, with one line feed between rows.
#[verifier::external_body]
fn render_listing(title: &str, lead: &str, rows: &Vec<Row>) -> (text: String)
    ensures
        text@ == listing(title@, lead@, rows_view(rows@)),
{
    let described: Vec<CommandDescription> = rows.iter().map(
        |r| CommandDescription { prefix: lead, command: r.0, description: r.1 },
    ).collect();
    CommandDescriptions::new(&described).global_description(title).to_string()
}

/// The rows of the help text: those of the table of commands.
pub open spec fn help_rows() -> Seq<(Seq<char>, Seq<char>)> {
    command_table().map_values(|k: CommandKind| (k.spec_name(), k.spec_description()))
}

/// The help text.
pub open spec fn help_text() -> Seq<char> {
    listing(heading(), prefix(), help_rows())
}

impl Command {
    /// The help text: the heading and one line for each command of the table.
    pub fn descriptions() -> (text: String)
        ensures
            text@ == help_text(),
    {
        let table = CommandKind::all();
        let mut rows: Vec<Row> = Vec::new();
        let mut i: usize = 0;
        while i < table.len()
            invariant
                i <= table.len(),
                table@ == command_table(),
                rows_view(rows@) == help_rows().take(i as int),
            decreases table.len() - i,
        {
            let kind = table[i];
            let ghost before = rows@;
            rows.push((kind.name(), kind.description()));
            proof {
                assert(kind == command_table()[i as int]);
                assert(rows_view(before).len() == i);
                assert forall|j: int| 0 <= j < i + 1 implies rows_view(rows@)[j]
                    == help_rows().take(i + 1)[j] by {
                    if j < i {
                        assert(rows@[j] == before[j]);
                        assert(rows_view(before)[j] == help_rows().take(i as int)[j]);
                    }
                }
                assert(rows_view(rows@) =~= help_rows().take(i + 1));
            }
            i += 1;
        }
        assert(help_rows().take(i as int) =~= help_rows());
        render_listing("These commands are supported:", "/", &rows)
    }
}

/// Every command stands in the table of commands.
pub proof fn lemma_table_is_complete(kind: CommandKind)
    ensures
        exists|at: int| 0 <= at < command_table().len() && #[trigger] command_table()[at] == kind,
{
    let at: int = match kind {
        CommandKind::Help => 0,
        CommandKind::Username => 1,
        CommandKind::UsernameAndAge => 2,
        CommandKind::Aria2Version => 3,
        CommandKind::Download => 4,
        CommandKind::DownloadStatus => 5,
    };
    assert(command_table()[at] == kind);
}

/// The lines of a listing hold, for each row, the prefix followed by the
/// row's name.
pub proof fn lemma_lines_hold_each_name(
    lead: Seq<char>,
    rows: Seq<(Seq<char>, Seq<char>)>,
    at: int,
)
    requires
        0 <= at < rows.len(),
    ensures
        occurs_in(lead + rows[at].0, listing_lines(lead, rows)),
    decreases rows.len(),
{
    let named = lead + rows[at].0;
    let none = Seq::<char>::empty();
    if at == rows.len() - 1 {
        let row = rows.last();
        let rest = if row.1.len() == 0 {
            none
        } else {
            " \u{2014} "@ + row.1
        };
        let first = if rows.len() == 1 {
            none
        } else {
            listing_lines(lead, rows.drop_last()) + "\n"@
        };
        lemma_occurs_between(first, named, rest);
        assert(first + named + rest =~= listing_lines(lead, rows));
    } else {
        lemma_lines_hold_each_name(lead, rows.drop_last(), at);
        let inner = listing_lines(lead, rows.drop_last());
        let after = "\n"@ + listing_line(lead, rows.last().0, rows.last().1);
        lemma_occurs_within(named, inner, none, after);
        assert(none + inner + after =~= listing_lines(lead, rows));
    }
}

/// The help text names every command: for each command, the prefix followed
/// by the command's name stands in it.
pub proof fn lemma_help_names_every_command(kind: CommandKind)
    ensures
        occurs_in(prefix() + kind.spec_name(), help_text()),
{
    lemma_table_is_complete(kind);
    let at = choose|at: int|
        0 <= at < command_table().len() && #[trigger] command_table()[at] == kind;
    assert(help_rows()[at].0 == kind.spec_name());
    lemma_lines_hold_each_name(prefix(), help_rows(), at);
    let lines = listing_lines(prefix(), help_rows());
    lemma_occurs_within(
        prefix() + kind.spec_name(),
        lines,
        heading() + "\n\n"@,
        Seq::<char>::empty(),
    );
    assert(heading() + "\n\n"@ + lines + Seq::<char>::empty() =~= help_text());
}

} // verus!
