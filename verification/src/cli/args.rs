use vstd::prelude::*;
use vstd::string::*;
use crate::text::{chars_of, push_str, starts_with, str_eq_chars, string_from_chars};

verus! {

/// What the program is asked to do.
#[derive(Debug, Clone, Copy, PartialEq, Eq, Structural)]
pub enum Command {
    Client,
    Server,
    GenKey,
    Version,
    Help,
}

/// The command line, read.
#[derive(Debug, Clone, PartialEq, Eq)]
pub struct CliArgs {
    pub command: Command,
    pub config_path: Option<String>,
    pub verbose: bool,
}

/// Why a command line could not be read.
#[derive(Debug, Clone, PartialEq, Eq)]
pub enum CliParseError {
    MissingCommand,
    UnknownCommand(String),
    UnknownFlag(String),
}

/// A command line's error, as values.
pub enum CliParseErrorView {
    MissingCommand,
    UnknownCommand(Seq<char>),
    UnknownFlag(Seq<char>),
}

impl View for CliParseError {
    type V = CliParseErrorView;

    open spec fn view(&self) -> CliParseErrorView {
        match self {
            CliParseError::MissingCommand => CliParseErrorView::MissingCommand,
            CliParseError::UnknownCommand(c) => CliParseErrorView::UnknownCommand(c@),
            CliParseError::UnknownFlag(f) => CliParseErrorView::UnknownFlag(f@),
        }
    }
}

/// The text with which a command-line error is reported.
pub open spec fn cli_error_message(e: CliParseErrorView) -> Seq<char> {
    match e {
        CliParseErrorView::MissingCommand => "no command specified"@,
        CliParseErrorView::UnknownCommand(c) => "unknown command: "@ + c,
        CliParseErrorView::UnknownFlag(f) => "unknown flag: "@ + f,
    }
}

impl CliParseError {
    /// The text with which this error is reported.
    pub fn message(&self) -> (r: String)
        ensures
            r@ == cli_error_message(self@),
    {
        match self {
            CliParseError::MissingCommand => String::from_str("no command specified"),
            CliParseError::UnknownCommand(c) => {
                let mut out: Vec<char> = Vec::new();
                push_str(&mut out, "unknown command: ");
                push_str(&mut out, c.as_str());
                string_from_chars(&out)
            },
            CliParseError::UnknownFlag(f) => {
                let mut out: Vec<char> = Vec::new();
                push_str(&mut out, "unknown flag: ");
                push_str(&mut out, f.as_str());
                string_from_chars(&out)
            },
        }
    }
}

/// The command a word names, if it names one.
pub open spec fn command_word(a: Seq<char>) -> Option<Command> {
    if a == "client"@ {
        Some(Command::Client)
    } else if a == "server"@ {
        Some(Command::Server)
    } else if a == "gen-key"@ {
        Some(Command::GenKey)
    } else if a == "version"@ {
        Some(Command::Version)
    } else if a == "help"@ {
        Some(Command::Help)
    } else {
        None
    }
}

/// What reading the arguments from position `i` on makes of the command, the configuration
/// path and the verbose flag found so far.
pub open spec fn cli_scan(
    args: Seq<Seq<char>>,
    i: int,
    command: Option<Command>,
    config_path: Option<Seq<char>>,
    verbose: bool,
) -> Result<(Option<Command>, Option<Seq<char>>, bool), CliParseErrorView>
    decreases args.len() + 1 - i,
{
    if i < 0 || i >= args.len() {
        Ok((command, config_path, verbose))
    } else {
        let a = args[i];
        if command_word(a) is Some {
            cli_scan(args, i + 1, command_word(a), config_path, verbose)
        } else if a == "--config"@ || a == "-c"@ {
            let path = if i + 1 < args.len() {
                Some(args[i + 1])
            } else {
                None
            };
            cli_scan(args, i + 2, command, path, verbose)
        } else if a == "--verbose"@ || a == "-v"@ {
            cli_scan(args, i + 1, command, config_path, true)
        } else if a == "--help"@ || a == "-h"@ {
            cli_scan(args, i + 1, Some(Command::Help), config_path, verbose)
        } else if a == "--version"@ || a == "-V"@ {
            cli_scan(args, i + 1, Some(Command::Version), config_path, verbose)
        } else if starts_with(a, "-"@) {
            Err(CliParseErrorView::UnknownFlag(a))
        } else {
            Err(CliParseErrorView::UnknownCommand(a))
        }
    }
}

/// The command line the arguments spell: the last command word wins, `--config` takes the
/// argument after it, and a command is required.
pub open spec fn parse_args_spec(args: Seq<Seq<char>>) -> Result<
    (Command, Option<Seq<char>>, bool),
    CliParseErrorView,
> {
    match cli_scan(args, 0, None, None, false) {
        Err(e) => Err(e),
        Ok((None, _, _)) => Err(CliParseErrorView::MissingCommand),
        Ok((Some(c), p, v)) => Ok((c, p, v)),
    }
}

pub open spec fn strings_view(args: Seq<String>) -> Seq<Seq<char>> {
    args.map_values(|s: String| s@)
}

fn word_command(a: &str) -> (r: Option<Command>)
    ensures
        r == command_word(a@),
{
    let c = chars_of(a);
    if str_eq_chars("client", &c) {
        Some(Command::Client)
    } else if str_eq_chars("server", &c) {
        Some(Command::Server)
    } else if str_eq_chars("gen-key", &c) {
        Some(Command::GenKey)
    } else if str_eq_chars("version", &c) {
        Some(Command::Version)
    } else if str_eq_chars("help", &c) {
        Some(Command::Help)
    } else {
        None
    }
}

fn copy_string(s: &String) -> (r: String)
    ensures
        r@ == s@,
{
    string_from_chars(&chars_of(s.as_str()))
}

impl CliArgs {
    /// Reads a command line, the program's name left out.
    pub fn parse_from_slice(args: &[String]) -> (r: Result<Self, CliParseError>)
        ensures
            r matches Ok(a) ==> parse_args_spec(strings_view(args@)) == Ok::<
                (Command, Option<Seq<char>>, bool),
                CliParseErrorView,
            >(
                (
                    a.command,
                    match a.config_path {
                        Some(p) => Some(p@),
                        None => None,
                    },
                    a.verbose,
                ),
            ),
            r matches Err(e) ==> parse_args_spec(strings_view(args@)) == Err::<
                (Command, Option<Seq<char>>, bool),
                CliParseErrorView,
            >(e@),
    {
        let ghost all = strings_view(args@);
        let mut command: Option<Command> = None;
        let mut config_path: Option<String> = None;
        let mut verbose = false;
        let mut i: usize = 0;
        while i < args.len()
            invariant
                i <= args@.len(),
                all == strings_view(args@),
                cli_scan(all, 0, None, None, false) == cli_scan(
                    all,
                    i as int,
                    command,
                    match config_path {
                        Some(p) => Some(p@),
                        None => None,
                    },
                    verbose,
                ),
            decreases args@.len() - i,
        {
            let arg = args[i].as_str();
            let a = chars_of(arg);
            proof {
                assert(all[i as int] == arg@);
            }
            match word_command(arg) {
                Some(c) => {
                    command = Some(c);
                },
                None => {
                    if str_eq_chars("--config", &a) || str_eq_chars("-c", &a) {
                        if i + 1 < args.len() {
                            proof {
                                assert(all[i + 1] == args@[i + 1]@);
                            }
                            config_path = Some(copy_string(&args[i + 1]));
                            i = i + 2;
                        } else {
                            proof {
                                assert(cli_scan(all, i + 2, command, None, verbose) == cli_scan(
                                    all,
                                    args@.len() as int,
                                    command,
                                    None,
                                    verbose,
                                ));
                            }
                            config_path = None;
                            i = args.len();
                        }
                        continue;
                    } else if str_eq_chars("--verbose", &a) || str_eq_chars("-v", &a) {
                        verbose = true;
                    } else if str_eq_chars("--help", &a) || str_eq_chars("-h", &a) {
                        command = Some(Command::Help);
                    } else if str_eq_chars("--version", &a) || str_eq_chars("-V", &a) {
                        command = Some(Command::Version);
                    } else if a.len() > 0 && a[0] == '-' {
                        proof {
                            reveal_strlit("-");
                            assert(a@.take(1) =~= "-"@);
                        }
                        return Err(CliParseError::UnknownFlag(copy_string(&args[i])));
                    } else {
                        proof {
                            reveal_strlit("-");
                            assert(starts_with(a@, "-"@) ==> a@.take(1)[0] == a@[0]);
                        }
                        return Err(CliParseError::UnknownCommand(copy_string(&args[i])));
                    }
                },
            }
            i = i + 1;
        }
        match command {
            None => Err(CliParseError::MissingCommand),
            Some(command) => Ok(CliArgs { command, config_path, verbose }),
        }
    }
}

} // verus!
