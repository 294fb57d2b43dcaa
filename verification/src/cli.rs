//! Argument parsing for the daemon binary.

use vstd::prelude::*;

use crate::text;

verus! {

/// What the binary was asked to do.
#[derive(Debug, Clone, Copy, PartialEq, Eq, Structural)]
pub enum Command {
    /// Run the daemon. The default.
    Serve,
    /// Apply the embedded forward migrations, then exit.
    Migrate,
    /// Print usage and exit 0. Asking for help is not an error.
    Help,
}

pub const USAGE: &'static str = "usage: jarvisd [migrate]";

/// The command that a first argument names.
pub open spec fn command_of(word: Seq<char>) -> Option<Command> {
    if word == "migrate"@ {
        Some(Command::Migrate)
    } else if word == "-h"@ || word == "--help"@ {
        Some(Command::Help)
    } else {
        None
    }
}

/// What is told of a first argument that names no command.
pub open spec fn unknown_subcommand(word: Seq<char>) -> Seq<char> {
    "unknown subcommand "@ + text::debug_text(word) + "\n"@ + USAGE@
}

/// What is told of an argument behind the command.
pub open spec fn unexpected_argument(word: Seq<char>) -> Seq<char> {
    "unexpected argument "@ + text::debug_text(word)
        + " — jarvisd takes no flags, and ignoring this one would run a real migration\n"@ + USAGE@
}

/// Parse a full argv, including argv[0]. The error is the text to report.
///
/// Anything behind the command is rejected rather than ignored: an operator who
/// types `jarvisd migrate --dry-run` asks for something this binary does not
/// offer, and discarding the tail would run a real migration.
pub fn parse(argv: Vec<String>) -> (r: Result<Command, String>)
    ensures
        answers_words(argv@, r),
        argv@.len() <= 1 ==> r == Ok::<Command, String>(Command::Serve),
        argv@.len() > 1 ==> match command_of(argv@[1]@) {
            None => r matches Err(e) && e@ == unknown_subcommand(argv@[1]@),
            Some(command) => if argv@.len() > 2 {
                r matches Err(e) && e@ == unexpected_argument(argv@[2]@)
            } else {
                r == Ok::<Command, String>(command)
            },
        },
{
    if argv.len() <= 1 {
        return Ok(Command::Serve);
    }
    let word = argv[1].as_str();
    let command = if text::same(word, "migrate") {
        Command::Migrate
    } else if text::same(word, "-h") || text::same(word, "--help") {
        Command::Help
    } else {
        let shown = text::quoted(word);
        let head = text::concat3("unknown subcommand ", shown.as_str(), "\n");
        return Err(text::concat2(head.as_str(), USAGE));
    };
    if argv.len() > 2 {
        let shown = text::quoted(argv[2].as_str());
        let head = text::concat3(
            "unexpected argument ",
            shown.as_str(),
            " — jarvisd takes no flags, and ignoring this one would run a real migration\n",
        );
        return Err(text::concat2(head.as_str(), USAGE));
    }
    Ok(command)
}

/// The command line knows `migrate` and asks for help in two ways; a word it
/// does not know is said back with how it is used.
pub proof fn law_the_command_line_knows_its_words(word: Seq<char>)
    ensures
        command_of("migrate"@) == Some(Command::Migrate),
        command_of("-h"@) == Some(Command::Help),
        command_of("--help"@) == Some(Command::Help),
        command_of(word) is None <==> word != "migrate"@ && word != "-h"@ && word != "--help"@,
        text::has_part(unknown_subcommand(word), text::debug_text(word)),
        text::has_part(unexpected_argument(word), text::debug_text(word)),
        text::has_part(unknown_subcommand(word), "usage: jarvisd [migrate]"@),
        text::has_part(unexpected_argument(word), "usage: jarvisd [migrate]"@),
{
    reveal_strlit("migrate");
    reveal_strlit("-h");
    reveal_strlit("--help");
    assert("migrate"@[0] == 'm');
    assert("-h"@[0] == '-');
    assert("--help"@[0] == '-');
    let shown = text::debug_text(word);
    let usage = "usage: jarvisd [migrate]"@;
    let a = "unknown subcommand "@;
    let b = "unexpected argument "@;
    let c = " — jarvisd takes no flags, and ignoring this one would run a real migration\n"@;
    let newline = "\n"@;
    text::law_parts_stand_between_others(seq![], shown, a, newline + usage);
    assert(unknown_subcommand(word) =~= a + shown + (newline + usage));
    text::law_parts_stand_between_others(seq![], shown, b, c + usage);
    assert(unexpected_argument(word) =~= b + shown + (c + usage));
    text::law_parts_stand_between_others(seq![], usage, a + shown + newline, seq![]);
    assert(unknown_subcommand(word) =~= a + shown + newline + usage + seq![]);
    text::law_parts_stand_between_others(seq![], usage, b + shown + c, seq![]);
    assert(unexpected_argument(word) =~= b + shown + c + usage + seq![]);
}

/// What a command line is answered with.
pub open spec fn answers_words(argv: Seq<String>, r: Result<Command, String>) -> bool {
    if argv.len() <= 1 {
        r == Ok::<Command, String>(Command::Serve)
    } else {
        match command_of(argv[1]@) {
            None => r matches Err(e) && e@ == unknown_subcommand(argv[1]@),
            Some(command) => if argv.len() > 2 {
                r matches Err(e) && e@ == unexpected_argument(argv[2]@)
            } else {
                r == Ok::<Command, String>(command)
            },
        }
    }
}

/// Without a word the daemon serves; with one that it knows, and nothing behind
/// it, it does what the word says; and nothing else is taken for a command.
pub proof fn law_a_command_is_one_known_word(argv: Seq<String>, r: Result<Command, String>)
    requires
        answers_words(argv, r),
    ensures
        r is Ok <==> argv.len() <= 1 || (argv.len() == 2 && (argv[1]@ == "migrate"@ || argv[1]@
            == "-h"@ || argv[1]@ == "--help"@)),
        r matches Ok(Command::Serve) ==> argv.len() <= 1,
        r matches Ok(Command::Migrate) ==> argv.len() == 2 && argv[1]@ == "migrate"@,
        argv.len() <= 1 ==> r == Ok::<Command, String>(Command::Serve),
{
    law_the_command_line_knows_its_words(argv[1]@);
}

} // verus!
