//! Reading a message as a command.

use vstd::prelude::*;
use crate::command::command_table;
use crate::command::help_text;
use crate::command::lemma_help_names_every_command;
use crate::command::lemma_table_is_complete;
use crate::command::prefix;
use crate::command::Command;
use crate::command::CommandKind;
use crate::command::CommandView;
use crate::text::ascii_lower;
use crate::text::blank;
use crate::text::chars_of;
use crate::text::eq_ignoring_case;
use crate::text::exactly;
use crate::text::find_blank;
use crate::text::find_char;
use crate::text::find_solid;
use crate::text::decimal_text;
use crate::text::first_index;
use crate::text::is_digit;
use crate::text::is_space;
use crate::text::lemma_decimal_text_reads_back;
use crate::text::lemma_parse_u8_reads_decimal;
use crate::text::lemma_first_index;
use crate::text::lemma_first_index_is;
use crate::text::occurs_in;
use crate::text::parse_u8;
use crate::text::parse_u8_spec;
use crate::text::same_ignoring_case;
use crate::text::solid;
use crate::text::sub_vec;

verus! {

/// Why a text is no command.
#[derive(Clone, Debug, PartialEq, Eq)]
pub enum ParseError {
    /// The command takes more arguments than the text holds.
    TooFewArguments { expected: usize, found: usize },
    /// The command takes fewer arguments than the text holds.
    TooManyArguments { expected: usize, found: usize },
    /// An argument does not write a value of its type.
    IncorrectFormat,
    /// The first word, up to a mention, names no command; it is kept as written.
    UnknownCommand(String),
    /// The text addresses another bot, whose name is kept as written.
    WrongBotName(String),
}

pub enum ParseErrorView {
    TooFewArguments { expected: usize, found: usize },
    TooManyArguments { expected: usize, found: usize },
    IncorrectFormat,
    UnknownCommand(Seq<char>),
    WrongBotName(Seq<char>),
}

impl View for ParseError {
    type V = ParseErrorView;

    open spec fn view(&self) -> ParseErrorView {
        match self {
            ParseError::TooFewArguments { expected, found } => ParseErrorView::TooFewArguments {
                expected: *expected,
                found: *found,
            },
            ParseError::TooManyArguments { expected, found } => ParseErrorView::TooManyArguments {
                expected: *expected,
                found: *found,
            },
            ParseError::IncorrectFormat => ParseErrorView::IncorrectFormat,
            ParseError::UnknownCommand(label) => ParseErrorView::UnknownCommand(label@),
            ParseError::WrongBotName(name) => ParseErrorView::WrongBotName(name@),
        }
    }
}

/// The first word of a text: what stands before its first blank.
pub open spec fn first_word(s: Seq<char>) -> Seq<char> {
    s.take(first_index(s, blank(), 0))
}

/// The arguments of a text: what follows the blanks after its first word.
pub open spec fn arguments(s: Seq<char>) -> Seq<char> {
    s.skip(first_index(s, solid(), first_index(s, blank(), 0)))
}

/// The part of a first word that names the command: what stands before its
/// first `@`.
pub open spec fn label(word: Seq<char>) -> Seq<char> {
    word.take(first_index(word, exactly('@'), 0))
}

/// The bot that a first word addresses: what stands between its first `@`
/// and its second, or its end; `None` where it holds no `@`.
pub open spec fn mention(word: Seq<char>) -> Option<Seq<char>> {
    let at = first_index(word, exactly('@'), 0);
    if at == word.len() {
        None
    } else {
        Some(word.subrange(at + 1, first_index(word, exactly('@'), at + 1)))
    }
}

/// Whether `label` calls the command `kind`: it is the prefix and the
/// command's name, in small or capital letters.
pub open spec fn calls(label: Seq<char>, kind: CommandKind) -> bool {
    same_ignoring_case(label, prefix() + kind.spec_name())
}

/// The test for a command that `label` calls.
pub open spec fn called_by(label: Seq<char>) -> spec_fn(CommandKind) -> bool {
    |kind: CommandKind| calls(label, kind)
}

/// The command that `label` calls: the first such in the table of commands.
pub open spec fn lookup(label: Seq<char>) -> Option<CommandKind> {
    let at = first_index(command_table(), called_by(label), 0);
    if at < command_table().len() {
        Some(command_table()[at])
    } else {
        None
    }
}

/// A name and an age out of the arguments, which a single blank separates:
/// the first piece is the name, the second writes the age, and there is no
/// third.
pub open spec fn name_and_age(args: Seq<char>) -> Result<CommandView, ParseErrorView> {
    let first = first_index(args, exactly(' '), 0);
    let second = first_index(args, exactly(' '), first + 1);
    if first == args.len() {
        Err(ParseErrorView::TooFewArguments { expected: 2, found: 1 })
    } else {
        match parse_u8_spec(args.subrange(first + 1, second)) {
            None => Err(ParseErrorView::IncorrectFormat),
            Some(age) => if second < args.len() {
                Err(ParseErrorView::TooManyArguments { expected: 2, found: 3 })
            } else {
                Ok(CommandView::UsernameAndAge { username: args.take(first), age })
            },
        }
    }
}

/// The command `kind` with its fields out of `args`. A command without
/// fields takes no notice of them; one with a single field takes them whole.
pub open spec fn build(kind: CommandKind, args: Seq<char>) -> Result<
    CommandView,
    ParseErrorView,
> {
    match kind {
        CommandKind::Help => Ok(CommandView::Help),
        CommandKind::Username => Ok(CommandView::Username(args)),
        CommandKind::UsernameAndAge => name_and_age(args),
        CommandKind::Aria2Version => Ok(CommandView::Aria2Version),
        CommandKind::Download => Ok(CommandView::Download(args)),
        CommandKind::DownloadStatus => Ok(CommandView::DownloadStatus(args)),
    }
}

/// What a text means to the bot called `bot`: the command that its first
/// word calls, with its fields, or the reason why it is none. A first word
/// that addresses another bot is refused before its command is looked up.
pub open spec fn parse_spec(s: Seq<char>, bot: Seq<char>) -> Result<CommandView, ParseErrorView> {
    let word = first_word(s);
    if mention(word) is Some && !same_ignoring_case(mention(word).unwrap(), bot) {
        Err(ParseErrorView::WrongBotName(mention(word).unwrap()))
    } else {
        match lookup(label(word)) {
            None => Err(ParseErrorView::UnknownCommand(label(word))),
            Some(kind) => build(kind, arguments(s)),
        }
    }
}

/// The view of a parser's result.
pub open spec fn parsed_view(parsed: Result<Command, ParseError>) -> Result<
    CommandView,
    ParseErrorView,
> {
    match parsed {
        Ok(command) => Ok(command@),
        Err(error) => Err(error@),
    }
}

/// Whether `label` calls `kind`.
fn calls_kind(label: &Vec<char>, kind: CommandKind) -> (called: bool)
    ensures
        called == calls(label@, kind),
{
    let mut full = chars_of("/");
    let mut name = chars_of(kind.name());
    full.append(&mut name);
    eq_ignoring_case(label, &full)
}

/// Looks `label` up in the table of commands.
fn find_kind(label: &Vec<char>) -> (found: Option<CommandKind>)
    ensures
        found == lookup(label@),
{
    let table = CommandKind::all();
    let mut at: usize = 0;
    while at < table.len()
        invariant
            at <= table.len(),
            table@ == command_table(),
            first_index(command_table(), called_by(label@), 0) == first_index(
                command_table(),
                called_by(label@),
                at as int,
            ),
        decreases table.len() - at,
    {
        if calls_kind(label, table[at]) {
            return Some(table[at]);
        }
        at += 1;
    }
    None
}

/// Takes a name and an age out of `args`, whose characters are `chars`.
fn parse_name_and_age(args: &str, chars: &Vec<char>) -> (parsed: Result<Command, ParseError>)
    requires
        chars@ == args@,
    ensures
        parsed_view(parsed) == name_and_age(args@),
{
    let first = find_char(chars, ' ', 0);
    if first == chars.len() {
        return Err(ParseError::TooFewArguments { expected: 2, found: 1 });
    }
    let second = find_char(chars, ' ', first + 1);
    let piece = sub_vec(chars, first + 1, second);
    match parse_u8(&piece) {
        None => Err(ParseError::IncorrectFormat),
        Some(age) => {
            if second < chars.len() {
                Err(ParseError::TooManyArguments { expected: 2, found: 3 })
            } else {
                let username = String::from_str(args.substring_char(0, first));
                Ok(Command::UsernameAndAge { username, age })
            }
        },
    }
}

/// Gives the command `kind` its fields out of `args`, whose characters are
/// `chars`.
fn build_command(kind: CommandKind, args: &str, chars: &Vec<char>) -> (parsed: Result<
    Command,
    ParseError,
>)
    requires
        chars@ == args@,
    ensures
        parsed_view(parsed) == build(kind, args@),
{
    match kind {
        CommandKind::Help => Ok(Command::Help),
        CommandKind::Username => Ok(Command::Username(String::from_str(args))),
        CommandKind::UsernameAndAge => parse_name_and_age(args, chars),
        CommandKind::Aria2Version => Ok(Command::Aria2Version),
        CommandKind::Download => Ok(Command::Download(String::from_str(args))),
        CommandKind::DownloadStatus => Ok(Command::DownloadStatus(String::from_str(args))),
    }
}

impl Command {
    /// Reads one message as a command for the bot called `bot_name`. The
    /// first word, up to a mention of the bot, is looked up in the table of
    /// commands without regard to case; what follows the blanks after it are
    /// the arguments. Every text gets an answer: a command or the reason why
    /// it is none.
    pub fn parse(s: &str, bot_name: &str) -> (parsed: Result<Command, ParseError>)
        ensures
            parsed_view(parsed) == parse_spec(s@, bot_name@),
    {
        let chars = chars_of(s);
        let end = find_blank(&chars, 0);
        let start = find_solid(&chars, end);
        let word = s.substring_char(0, end);
        let word_chars = sub_vec(&chars, 0, end);
        let args = s.substring_char(start, chars.len());
        let args_chars = sub_vec(&chars, start, chars.len());
        assert(word@ =~= first_word(s@));
        assert(args@ =~= arguments(s@));
        let at = find_char(&word_chars, '@', 0);
        if at < word_chars.len() {
            let close = find_char(&word_chars, '@', at + 1);
            let mentioned = sub_vec(&word_chars, at + 1, close);
            let bot = chars_of(bot_name);
            if !eq_ignoring_case(&mentioned, &bot) {
                let name = String::from_str(word.substring_char(at + 1, close));
                return Err(ParseError::WrongBotName(name));
            }
        }
        let label_chars = sub_vec(&word_chars, 0, at);
        assert(label_chars@ =~= label(word@));
        match find_kind(&label_chars) {
            None => Err(ParseError::UnknownCommand(String::from_str(word.substring_char(0, at)))),
            Some(kind) => build_command(kind, args, &args_chars),
        }
    }
}

/// Makes the characters of the prefix and of the commands' names known.
pub proof fn lemma_names_are_known()
    ensures
        prefix() =~= seq!['/'],
        CommandKind::Help.spec_name() =~= seq!['h', 'e', 'l', 'p'],
        CommandKind::Username.spec_name() =~= seq!['u', 's', 'e', 'r', 'n', 'a', 'm', 'e'],
        CommandKind::UsernameAndAge.spec_name() =~= seq![
            'u', 's', 'e', 'r', 'n', 'a', 'm', 'e', 'a', 'n', 'd', 'a', 'g', 'e',
        ],
        CommandKind::Aria2Version.spec_name() =~= seq![
            'a', 'r', 'i', 'a', '2', 'v', 'e', 'r', 's', 'i', 'o', 'n',
        ],
        CommandKind::Download.spec_name() =~= seq!['d', 'o', 'w', 'n', 'l', 'o', 'a', 'd'],
        CommandKind::DownloadStatus.spec_name() =~= seq![
            'd', 'o', 'w', 'n', 'l', 'o', 'a', 'd', 's', 't', 'a', 't', 'u', 's',
        ],
{
    reveal_strlit("/");
    reveal_strlit("help");
    reveal_strlit("username");
    reveal_strlit("usernameandage");
    reveal_strlit("aria2version");
    reveal_strlit("download");
    reveal_strlit("downloadstatus");
}

/// No two commands are called alike: the names differ in more than case.
pub proof fn lemma_names_differ(one: CommandKind, other: CommandKind)
    requires
        one != other,
    ensures
        !same_ignoring_case(prefix() + one.spec_name(), prefix() + other.spec_name()),
{
    lemma_names_are_known();
    let a = prefix() + one.spec_name();
    let b = prefix() + other.spec_name();
    if a.len() == b.len() {
        assert(ascii_lower(a[1]) != ascii_lower(b[1]));
    }
}

/// Being alike but for case goes both ways and carries over.
pub proof fn lemma_same_ignoring_case_is_equivalence(a: Seq<char>, b: Seq<char>, c: Seq<char>)
    ensures
        same_ignoring_case(a, a),
        same_ignoring_case(a, b) ==> same_ignoring_case(b, a),
        same_ignoring_case(a, b) && same_ignoring_case(b, c) ==> same_ignoring_case(a, c),
{
    if same_ignoring_case(a, b) {
        assert forall|i: int| 0 <= i < b.len() implies ascii_lower(#[trigger] b[i])
            == ascii_lower(a[i]) by {
            assert(ascii_lower(a[i]) == ascii_lower(b[i]));
        }
        if same_ignoring_case(b, c) {
            assert forall|i: int| 0 <= i < a.len() implies ascii_lower(#[trigger] a[i])
                == ascii_lower(c[i]) by {
                assert(ascii_lower(a[i]) == ascii_lower(b[i]));
                assert(ascii_lower(b[i]) == ascii_lower(c[i]));
            }
        }
    }
}

/// A label is taken for a command exactly when it calls it: the parser
/// knows the commands of the table and no others, each under its own name
/// in any mix of small and capital letters.
pub proof fn lemma_lookup_finds_what_is_called(label: Seq<char>, kind: CommandKind)
    ensures
        lookup(label) == Some(kind) <==> calls(label, kind),
{
    let table = command_table();
    let found = first_index(table, called_by(label), 0);
    lemma_first_index(table, called_by(label), 0);
    if calls(label, kind) {
        lemma_table_is_complete(kind);
        let at = choose|at: int| 0 <= at < table.len() && #[trigger] table[at] == kind;
        assert(called_by(label)(table[at]));
        assert(found <= at);
        if table[found] != kind {
            let full = prefix() + kind.spec_name();
            let other = prefix() + table[found].spec_name();
            lemma_same_ignoring_case_is_equivalence(other, label, full);
            lemma_same_ignoring_case_is_equivalence(label, other, full);
            lemma_names_differ(table[found], kind);
        }
    }
}

/// What the parser takes for a command is a command of the help text: the
/// name that the label calls stands there behind the prefix.
pub proof fn lemma_help_names_what_parser_knows(label: Seq<char>)
    requires
        lookup(label) is Some,
    ensures
        calls(label, lookup(label).unwrap()),
        occurs_in(prefix() + lookup(label).unwrap().spec_name(), help_text()),
{
    let kind = lookup(label).unwrap();
    lemma_lookup_finds_what_is_called(label, kind);
    lemma_help_names_every_command(kind);
}

/// Which command a value is.
pub open spec fn kind_of(command: CommandView) -> CommandKind {
    match command {
        CommandView::Help => CommandKind::Help,
        CommandView::Username(_) => CommandKind::Username,
        CommandView::UsernameAndAge { .. } => CommandKind::UsernameAndAge,
        CommandView::Aria2Version => CommandKind::Aria2Version,
        CommandView::Download(_) => CommandKind::Download,
        CommandView::DownloadStatus(_) => CommandKind::DownloadStatus,
    }
}

/// The arguments that write the fields of a command.
pub open spec fn fields_text(command: CommandView) -> Seq<char> {
    match command {
        CommandView::Help => Seq::empty(),
        CommandView::Username(name) => name,
        CommandView::UsernameAndAge { username, age } => username + seq![' '] + decimal_text(
            age as nat,
        ),
        CommandView::Aria2Version => Seq::empty(),
        CommandView::Download(uri) => uri,
        CommandView::DownloadStatus(gid) => gid,
    }
}

/// The message that writes a command: the prefix, the name, a blank and the
/// fields.
pub open spec fn command_text(command: CommandView) -> Seq<char> {
    prefix() + kind_of(command).spec_name() + seq![' '] + fields_text(command)
}

/// Whether the fields of a command can be told from the blanks around them:
/// no field starts with a blank, and a name that an age follows is not empty
/// and holds no space.
pub open spec fn writable(command: CommandView) -> bool {
    let fields = fields_text(command);
    &&& fields.len() > 0 ==> !is_space(fields[0])
    &&& command matches CommandView::UsernameAndAge { username, .. } ==> username.len() > 0
        && forall|i: int| 0 <= i < username.len() ==> #[trigger] username[i] != ' '
}

/// No name of a command holds a blank or an `@`.
pub proof fn lemma_names_are_plain(kind: CommandKind)
    ensures
        forall|i: int|
            0 <= i < (prefix() + kind.spec_name()).len() ==> !is_space(
                #[trigger] (prefix() + kind.spec_name())[i],
            ) && (prefix() + kind.spec_name())[i] != '@',
{
    lemma_names_are_known();
}

/// A message that starts with a command's name and a blank is read as that
/// command, with what follows the blank as its arguments, provided these do
/// not start with a blank themselves.
pub proof fn lemma_parse_splits_name_from_arguments(
    kind: CommandKind,
    args: Seq<char>,
    bot: Seq<char>,
)
    requires
        args.len() > 0 ==> !is_space(args[0]),
    ensures
        parse_spec(prefix() + kind.spec_name() + seq![' '] + args, bot) == build(kind, args),
{
    let name = prefix() + kind.spec_name();
    let s = name + seq![' '] + args;
    let end = name.len() as int;
    lemma_names_are_plain(kind);
    assert forall|j: int| 0 <= j < end implies !blank()(#[trigger] s[j]) by {
        assert(s[j] == name[j]);
    }
    assert(blank()(s[end]));
    lemma_first_index_is(s, blank(), 0, end);
    let word = first_word(s);
    assert(word =~= name);
    assert forall|j: int| 0 <= j < end implies !exactly('@')(#[trigger] word[j]) by {}
    lemma_first_index_is(word, exactly('@'), 0, end);
    assert(label(word) =~= name);
    assert(mention(word) is None);
    lemma_same_ignoring_case_is_equivalence(name, name, name);
    lemma_lookup_finds_what_is_called(name, kind);
    assert forall|j: int| end <= j < end + 1 implies !solid()(#[trigger] s[j]) by {}
    if args.len() > 0 {
        assert(s[end + 1] == args[0]);
    }
    lemma_first_index_is(s, solid(), end, end + 1);
    assert(arguments(s) =~= args);
}

/// A command that is written out is read back: the parser gives the same
/// command, with the same fields, for the message that writes it.
pub proof fn lemma_parse_reads_back(command: CommandView, bot: Seq<char>)
    requires
        writable(command),
    ensures
        parse_spec(command_text(command), bot) == Ok::<CommandView, ParseErrorView>(command),
{
    let args = fields_text(command);
    lemma_parse_splits_name_from_arguments(kind_of(command), args, bot);
    match command {
        CommandView::UsernameAndAge { username, age } => {
            let number = decimal_text(age as nat);
            let first = username.len() as int;
            lemma_decimal_text_reads_back(age as nat);
            lemma_parse_u8_reads_decimal(age);
            assert forall|j: int| 0 <= j < first implies !exactly(' ')(#[trigger] args[j]) by {
                assert(args[j] == username[j]);
            }
            assert(args[first] == ' ');
            lemma_first_index_is(args, exactly(' '), 0, first);
            assert forall|j: int| first + 1 <= j < args.len() implies !exactly(' ')(
                #[trigger] args[j],
            ) by {
                assert(args[j] == number[j - first - 1]);
                assert(is_digit(number[j - first - 1]));
            }
            lemma_first_index_is(args, exactly(' '), first + 1, args.len() as int);
            assert(args.subrange(first + 1, args.len() as int) =~= number);
            assert(args.take(first) =~= username);
        },
        _ => {},
    }
}

/// A message that is a command's name and nothing else is read as that
/// command with empty arguments.
pub proof fn lemma_parse_bare_name(kind: CommandKind, bot: Seq<char>)
    ensures
        parse_spec(prefix() + kind.spec_name(), bot) == build(kind, Seq::empty()),
{
    let s = prefix() + kind.spec_name();
    let end = s.len() as int;
    lemma_names_are_plain(kind);
    lemma_first_index_is(s, blank(), 0, end);
    let word = first_word(s);
    assert(word =~= s);
    lemma_first_index_is(word, exactly('@'), 0, end);
    assert(label(word) =~= s);
    lemma_same_ignoring_case_is_equivalence(s, s, s);
    lemma_lookup_finds_what_is_called(s, kind);
    lemma_first_index_is(s, solid(), end, end);
    assert(arguments(s) =~= Seq::<char>::empty());
}

/// An age that does not write a number below 256 makes no command: the
/// message with a name and such an age is refused, and where the age holds
/// no space the reason is its format.
pub proof fn lemma_bad_age_is_refused(username: Seq<char>, age: Seq<char>, bot: Seq<char>)
    requires
        username.len() > 0,
        !is_space(username[0]),
        forall|i: int| 0 <= i < username.len() ==> #[trigger] username[i] != ' ',
        parse_u8_spec(age) is None,
    ensures
        parse_spec(
            prefix() + CommandKind::UsernameAndAge.spec_name() + seq![' '] + (username + seq![' ']
                + age),
            bot,
        ) is Err,
        (forall|i: int| 0 <= i < age.len() ==> #[trigger] age[i] != ' ') ==> parse_spec(
            prefix() + CommandKind::UsernameAndAge.spec_name() + seq![' '] + (username + seq![' ']
                + age),
            bot,
        ) == Err::<CommandView, ParseErrorView>(ParseErrorView::IncorrectFormat),
{
    let args = username + seq![' '] + age;
    let first = username.len() as int;
    lemma_parse_splits_name_from_arguments(CommandKind::UsernameAndAge, args, bot);
    assert(args[0] == username[0]);
    assert forall|j: int| 0 <= j < first implies !exactly(' ')(#[trigger] args[j]) by {
        assert(args[j] == username[j]);
    }
    assert(args[first] == ' ');
    lemma_first_index_is(args, exactly(' '), 0, first);
    lemma_first_index(args, exactly(' '), first + 1);
    let second = first_index(args, exactly(' '), first + 1);
    if second == args.len() {
        assert(args.subrange(first + 1, second) =~= age);
    }
    if forall|i: int| 0 <= i < age.len() ==> #[trigger] age[i] != ' ' {
        if second < args.len() {
            assert(args[second] == age[second - first - 1]);
        }
    }
}

} // verus!
