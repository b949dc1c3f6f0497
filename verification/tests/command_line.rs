use file_watcher::command::{command_from_words, split_command, CommandError, CommandSpec};
use file_watcher::outcome::ExitOutcome;

fn strings(items: &[&str]) -> Vec<String> {
    let mut out = Vec::new();
    for item in items {
        out.push(item.to_string());
    }
    out
}

#[test]
fn plain_command_splits_into_program_and_arguments() {
    let (program, args) = split_command("yarn build --watch=false").unwrap();
    assert_eq!(program, "yarn");
    assert_eq!(args, strings(&["build", "--watch=false"]));
}

#[test]
fn program_alone_has_no_arguments() {
    let (program, args) = split_command("make").unwrap();
    assert_eq!(program, "make");
    assert!(args.is_empty());
}

#[test]
fn empty_command_is_refused() {
    assert_eq!(split_command(""), Err(CommandError::EmptyCommand));
}

#[test]
fn blank_command_is_refused() {
    assert_eq!(split_command("   \t \n"), Err(CommandError::EmptyCommand));
}

#[test]
fn comment_only_command_is_refused() {
    assert_eq!(split_command("# nothing to run"), Err(CommandError::EmptyCommand));
}

#[test]
fn open_single_quote_is_a_parse_error() {
    assert_eq!(split_command("echo 'unfinished"), Err(CommandError::ParseError));
}

#[test]
fn open_double_quote_is_a_parse_error() {
    assert_eq!(split_command("echo \"unfinished"), Err(CommandError::ParseError));
}

#[test]
fn quotes_keep_spaces_inside_one_argument() {
    let (program, args) = split_command("sh -c 'echo hello world' \"a b\"").unwrap();
    assert_eq!(program, "sh");
    assert_eq!(args, strings(&["-c", "echo hello world", "a b"]));
}

#[test]
fn backslash_escapes_a_space() {
    let (program, args) = split_command("cat my\\ file.txt").unwrap();
    assert_eq!(program, "cat");
    assert_eq!(args, strings(&["my file.txt"]));
}

#[test]
fn empty_first_word_names_no_program() {
    assert_eq!(split_command("'' x"), Err(CommandError::EmptyCommand));
    assert_eq!(split_command("\"\" foo"), Err(CommandError::EmptyCommand));
    assert_eq!(split_command("''"), Err(CommandError::EmptyCommand));
    assert_eq!(CommandSpec::parse("'' x"), Err(CommandError::EmptyCommand));
}

#[test]
fn empty_word_after_the_program_is_an_argument() {
    let (program, args) = split_command("echo '' x").unwrap();
    assert_eq!(program, "echo");
    assert_eq!(args, strings(&["", "x"]));
}

#[test]
fn words_with_an_empty_first_word_give_no_command() {
    assert_eq!(command_from_words(strings(&["", "foo"])), Err(CommandError::EmptyCommand));
    assert_eq!(command_from_words(strings(&[""])), Err(CommandError::EmptyCommand));
}

#[test]
fn program_of_a_parsed_command_is_never_empty() {
    let lines = ["a", "'' a", "a ''", " 'b c' d", "\\ x", "\"\"''", "#x", "x#y"];
    for line in lines {
        match split_command(line) {
            Ok((program, _)) => assert!(!program.is_empty()),
            Err(e) => assert_eq!(e, CommandError::EmptyCommand),
        }
    }
}

#[test]
fn program_and_arguments_together_are_the_words() {
    let words = strings(&["npm", "run", "build:css", "--", "--verbose"]);
    let line = "npm run 'build:css' -- \"--verbose\"";
    let (program, args) = split_command(line).unwrap();
    let mut joined = vec![program];
    joined.extend(args);
    assert_eq!(joined, words);
}

#[test]
fn words_give_the_command() {
    let command = command_from_words(strings(&["cargo", "test", "--all"]));
    assert_eq!(command, Ok(("cargo".to_string(), strings(&["test", "--all"]))));
}

#[test]
fn no_words_give_no_command() {
    assert_eq!(command_from_words(Vec::new()), Err(CommandError::EmptyCommand));
}

#[test]
fn command_spec_parses_like_split_command() {
    let command = CommandSpec::parse("yarn build --watch=false").unwrap();
    assert_eq!(command.program(), "yarn");
    assert_eq!(command.args(), strings(&["build", "--watch=false"]));
    assert_eq!(CommandSpec::parse(""), Err(CommandError::EmptyCommand));
    assert_eq!(CommandSpec::parse("'"), Err(CommandError::ParseError));
}

#[test]
fn exit_code_zero_is_success() {
    assert_eq!(ExitOutcome::from_exit_code(Some(0)), ExitOutcome::Success);
    assert!(ExitOutcome::from_exit_code(Some(0)).is_success());
}

#[test]
fn exit_code_two_is_a_failure_with_code_two() {
    let outcome = ExitOutcome::from_exit_code(Some(2));
    assert_eq!(outcome, ExitOutcome::Failure(Some(2)));
    assert!(!outcome.is_success());
}

#[test]
fn negative_exit_code_is_a_failure() {
    assert_eq!(ExitOutcome::from_exit_code(Some(-1)), ExitOutcome::Failure(Some(-1)));
}

#[test]
fn missing_exit_code_is_a_failure_without_code() {
    let outcome = ExitOutcome::from_exit_code(None);
    assert_eq!(outcome, ExitOutcome::Failure(None));
    assert!(!outcome.is_success());
}

#[test]
fn spawn_error_is_no_success() {
    assert!(!ExitOutcome::SpawnError.is_success());
}

#[test]
fn joining_the_words_and_parsing_again_gives_the_same_command() {
    let lines = [
        "yarn build --watch=false",
        "sh -c 'echo hello world' \"a b\"",
        "cat my\\ file.txt",
        "printf '%s\\n' \"it's\" '' $HOME a\\\"b",
        "  make   -j 8  ",
    ];
    for line in lines {
        let (program, args) = split_command(line).unwrap();
        let mut words = vec![program.clone()];
        words.extend(args.iter().cloned());
        let rejoined = shell_words::join(&words);
        assert_eq!(split_command(&rejoined), Ok((program, args)));
    }
}

#[test]
fn open_quote_after_complete_words_gives_no_part_of_a_command() {
    assert_eq!(split_command("yarn build 'oops"), Err(CommandError::ParseError));
    assert_eq!(split_command("yarn \"build"), Err(CommandError::ParseError));
}
