//! The command to run: a shell-style command line split into a program and
//! its arguments.

use vstd::prelude::*;
use crate::text::texts;

verus! {

#[verifier::external_type_specification]
#[verifier::external_body]
pub struct ExShellParseError(shell_words::ParseError);

/// What `shell_words::split` makes of a command line: its words, after quotes
/// and backslashes have been resolved as a POSIX shell resolves them, or
/// `None` where a quote is left open.
pub uninterp spec fn shell_split(line: Seq<char>) -> Option<Seq<Seq<char>>>;

/// Why a command line gives no command.
#[derive(Clone, Copy, Debug, PartialEq, Eq, Structural)]
pub enum CommandError {
    /// The line names no program: it holds no word at all, or its first word
    /// is empty.
    EmptyCommand,
    /// The line is malformed: a quote is not closed.
    ParseError,
}

/// A program and the arguments it is started with. The name of the program
/// is never empty.
#[derive(Debug, PartialEq, Eq)]
pub struct CommandSpec {
    program: String,
    args: Vec<String>,
}

/// A command as the contracts see it.
pub struct CommandView {
    pub program: Seq<char>,
    pub args: Seq<Seq<char>>,
}

impl CommandView {
    /// The words of the command: the program, then the arguments in order.
    pub open spec fn words(self) -> Seq<Seq<char>> {
        seq![self.program] + self.args
    }
}

impl View for CommandSpec {
    type V = CommandView;

    closed spec fn view(&self) -> CommandView {
        CommandView { program: self.program@, args: texts(self.args@) }
    }
}

/// The command that a list of words stands for: the first word is the
/// program, the others are its arguments. Words that name no program stand
/// for no command: where there is no word, and likewise where the first word
/// is empty, the error is `EmptyCommand`.
pub open spec fn command_of(words: Seq<Seq<char>>) -> Result<CommandView, CommandError> {
    if words.len() == 0 || words[0].len() == 0 {
        Err(CommandError::EmptyCommand)
    } else {
        Ok(CommandView { program: words[0], args: words.skip(1) })
    }
}

/// What a command line parses to: the command of its words, and an error
/// where it cannot be split into words.
pub open spec fn parsed_command(line: Seq<char>) -> Result<CommandView, CommandError> {
    match shell_split(line) {
        Some(words) => command_of(words),
        None => Err(CommandError::ParseError),
    }
}

/// A program with its arguments, or the error in their place, as the
/// contracts see it.
pub open spec fn command_view(parts: Result<(String, Vec<String>), CommandError>) -> Result<
    CommandView,
    CommandError,
> {
    match parts {
        Ok((program, args)) => Ok(CommandView { program: program@, args: texts(args@) }),
        Err(e) => Err(e),
    }
}

/// A parsed command, or the error in its place, as the contracts see it.
pub open spec fn parsed_view(parsed: Result<CommandSpec, CommandError>) -> Result<
    CommandView,
    CommandError,
> {
    match parsed {
        Ok(command) => Ok(command@),
        Err(e) => Err(e),
    }
}

/// Calls `shell_words::split`. The result holds the named words of the line,
/// and is an error exactly where there are none to name; a line without any
/// character has no words.
#[verifier::external_body]
fn split_words(line: &str) -> (split: Result<Vec<String>, shell_words::ParseError>)
    ensures
        match split {
            Ok(words) => shell_split(line@) == Some(texts(words@)),
            Err(_) => shell_split(line@) is None,
        },
        line@.len() == 0 ==> split is Ok && split->Ok_0@.len() == 0,
{
    shell_words::split(line)
}

/// Takes the words of a command line apart into the program and its
/// arguments. Without a word there is no command, and none with an empty
/// first word: a program has a name.
pub fn command_from_words(words: Vec<String>) -> (command: Result<
    (String, Vec<String>),
    CommandError,
>)
    ensures
        command_view(command) == command_of(texts(words@)),
        command matches Ok((program, _)) ==> program@.len() > 0,
{
    let mut words = words;
    if words.len() == 0 {
        return Err(CommandError::EmptyCommand);
    }
    if words[0].as_str().is_empty() {
        return Err(CommandError::EmptyCommand);
    }
    let ghost all = texts(words@);
    let program = words.remove(0);
    assert(texts(words@) =~= all.skip(1));
    Ok((program, words))
}

/// Parses a shell-style command line into the program and its arguments.
/// Quotes and backslashes are resolved by POSIX rules. A line with an open
/// quote is a `ParseError` and never a part of a command. A line that names
/// no program is an `EmptyCommand`: the empty line, a line without words, and
/// a line whose first word is empty. The program of a command is never empty.
pub fn split_command(cmd: &str) -> (command: Result<(String, Vec<String>), CommandError>)
    ensures
        command_view(command) == parsed_command(cmd@),
        command matches Ok((program, _)) ==> program@.len() > 0,
        cmd@.len() == 0 ==> command == Err::<(String, Vec<String>), _>(CommandError::EmptyCommand),
{
    match split_words(cmd) {
        Ok(words) => command_from_words(words),
        Err(_) => Err(CommandError::ParseError),
    }
}

impl CommandSpec {
    /// The name of the program is not empty.
    #[verifier::type_invariant]
    spec fn names_a_program(&self) -> bool {
        self.program@.len() > 0
    }

    /// Parses a command line into a command, as [`split_command`] does.
    pub fn parse(line: &str) -> (parsed: Result<CommandSpec, CommandError>)
        ensures
            parsed_view(parsed) == parsed_command(line@),
            parsed matches Ok(command) ==> command@.program.len() > 0,
            line@.len() == 0 ==> parsed == Err::<CommandSpec, _>(CommandError::EmptyCommand),
    {
        match split_command(line) {
            Ok((program, args)) => Ok(CommandSpec { program, args }),
            Err(e) => Err(e),
        }
    }

    /// The program to start. Its name is not empty.
    pub fn program(&self) -> (program: &str)
        ensures
            program@ == self@.program,
            program@.len() > 0,
    {
        proof {
            use_type_invariant(self);
        }
        self.program.as_str()
    }

    /// The arguments that the program is started with, in order.
    pub fn args(&self) -> (args: &[String])
        ensures
            texts(args@) == self@.args,
    {
        self.args.as_slice()
    }
}

/// Putting the program back in front of its arguments gives the words of the
/// line again: a line that parses loses no word and gains none, and its
/// program is not empty. A line whose words name no program parses to
/// `EmptyCommand`, and a line that cannot be split, to `ParseError` and to no
/// part of a command.
pub proof fn lemma_parse_keeps_words(line: Seq<char>)
    ensures
        match parsed_command(line) {
            Ok(command) => shell_split(line) == Some(command.words()) && command.program.len() > 0,
            Err(CommandError::EmptyCommand) => shell_split(line) matches Some(words) && (words.len()
                == 0 || words[0].len() == 0),
            Err(CommandError::ParseError) => shell_split(line) is None,
        },
{
    match shell_split(line) {
        Some(words) => {
            if words.len() > 0 && words[0].len() > 0 {
                assert(seq![words[0]] + words.skip(1) =~= words);
            }
        },
        None => {},
    }
}

} // verus!
