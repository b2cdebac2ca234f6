//! The command line of the downloader.

use crate::text::{parse_u64, parse_u64_text, same_text};
use vstd::prelude::*;

verus! {

/// A non-interactive concurrent network downloader: what the command line
/// asks for.
#[derive(Clone, Debug, PartialEq, Eq)]
pub struct CommandLineArgs {
    /// The URI to download (`--url`, `-u`).
    pub url: String,
    /// Output file path, optional (`--output`, `-o`).
    pub output: Option<String>,
    /// Number of concurrent connections, from 1 to 100; 1 if not given
    /// (`--connections`, `-c`).
    pub connections: u8,
    /// Run in the background (`--background`, `-b`).
    pub background: bool,
    /// Verbose mode (`--verbose`, `-v`).
    pub verbose: bool,
}

/// A [`CommandLineArgs`] with its texts as character sequences.
pub struct CommandLineArgsView {
    pub url: Seq<char>,
    pub output: Option<Seq<char>>,
    pub connections: u8,
    pub background: bool,
    pub verbose: bool,
}

impl View for CommandLineArgs {
    type V = CommandLineArgsView;

    open spec fn view(&self) -> CommandLineArgsView {
        CommandLineArgsView {
            url: self.url@,
            output: match self.output {
                Some(path) => Some(path@),
                None => None,
            },
            connections: self.connections,
            background: self.background,
            verbose: self.verbose,
        }
    }
}

/// Why a command line was not taken.
#[derive(Clone, Debug, PartialEq, Eq)]
pub enum ArgsError {
    /// Help was asked for with `--help` or `help`.
    Help,
    /// The argument is no option of the downloader.
    Unrecognized(String),
    /// The option needs a value and the command line ends with it.
    MissingValue(String),
    /// The option was given before.
    Duplicate(String),
    /// The value of `--connections` is no number from 1 to 100.
    InvalidConnections(String),
    /// `--url` was not given.
    MissingUrl,
}

/// An [`ArgsError`] with its texts as character sequences.
pub enum ArgsErrorView {
    Help,
    Unrecognized(Seq<char>),
    MissingValue(Seq<char>),
    Duplicate(Seq<char>),
    InvalidConnections(Seq<char>),
    MissingUrl,
}

impl View for ArgsError {
    type V = ArgsErrorView;

    open spec fn view(&self) -> ArgsErrorView {
        match self {
            ArgsError::Help => ArgsErrorView::Help,
            ArgsError::Unrecognized(text) => ArgsErrorView::Unrecognized(text@),
            ArgsError::MissingValue(text) => ArgsErrorView::MissingValue(text@),
            ArgsError::Duplicate(text) => ArgsErrorView::Duplicate(text@),
            ArgsError::InvalidConnections(text) => ArgsErrorView::InvalidConnections(text@),
            ArgsError::MissingUrl => ArgsErrorView::MissingUrl,
        }
    }
}

/// The smallest number of connections.
pub const MIN_CONNECTIONS: u8 = 1;

/// The largest number of connections.
pub const MAX_CONNECTIONS: u8 = 100;

/// What has been read off a command line so far.
pub struct ArgsDraft {
    pub url: Option<Seq<char>>,
    pub output: Option<Seq<char>>,
    pub connections: Option<u8>,
    pub background: bool,
    pub verbose: bool,
}

/// The draft before anything was read.
pub open spec fn empty_draft() -> ArgsDraft {
    ArgsDraft { url: None, output: None, connections: None, background: false, verbose: false }
}

/// The number of connections that `value` asks for, if it is a decimal
/// numeral from 1 to 100.
pub open spec fn connections_of(value: Seq<char>) -> Option<u8> {
    match parse_u64_text(value) {
        Some(n) => if MIN_CONNECTIONS <= n <= MAX_CONNECTIONS {
            Some(n as u8)
        } else {
            None
        },
        None => None,
    }
}

/// Reads the arguments from position `at` on into `draft`.
///
/// `--url`, `--output` and `--connections` (short `-u`, `-o`, `-c`) take the
/// argument behind them as their value and may be given once;
/// `--background` and `--verbose` (short `-b`, `-v`) are switches. `--help`
/// and `help` ask for help. Behind `--` nothing is an option, and the
/// downloader takes no other arguments.
pub open spec fn read_args(
    args: Seq<Seq<char>>,
    at: int,
    draft: ArgsDraft,
    options_ended: bool,
) -> Result<ArgsDraft, ArgsErrorView>
    decreases args.len() - at,
{
    if at < 0 || at >= args.len() {
        Ok(draft)
    } else {
        let arg = args[at];
        if options_ended {
            Err(ArgsErrorView::Unrecognized(arg))
        } else if arg == "--help"@ || arg == "help"@ {
            Err(ArgsErrorView::Help)
        } else if arg == "--"@ {
            read_args(args, at + 1, draft, true)
        } else if arg == "--background"@ || arg == "-b"@ {
            read_args(
                args,
                at + 1,
                ArgsDraft {
                    url: draft.url,
                    output: draft.output,
                    connections: draft.connections,
                    background: true,
                    verbose: draft.verbose,
                },
                false,
            )
        } else if arg == "--verbose"@ || arg == "-v"@ {
            read_args(
                args,
                at + 1,
                ArgsDraft {
                    url: draft.url,
                    output: draft.output,
                    connections: draft.connections,
                    background: draft.background,
                    verbose: true,
                },
                false,
            )
        } else if arg == "--url"@ || arg == "-u"@ {
            if at + 1 >= args.len() {
                Err(ArgsErrorView::MissingValue(arg))
            } else if draft.url is Some {
                Err(ArgsErrorView::Duplicate(arg))
            } else {
                read_args(
                    args,
                    at + 2,
                    ArgsDraft {
                        url: Some(args[at + 1]),
                        output: draft.output,
                        connections: draft.connections,
                        background: draft.background,
                        verbose: draft.verbose,
                    },
                    false,
                )
            }
        } else if arg == "--output"@ || arg == "-o"@ {
            if at + 1 >= args.len() {
                Err(ArgsErrorView::MissingValue(arg))
            } else if draft.output is Some {
                Err(ArgsErrorView::Duplicate(arg))
            } else {
                read_args(
                    args,
                    at + 2,
                    ArgsDraft {
                        url: draft.url,
                        output: Some(args[at + 1]),
                        connections: draft.connections,
                        background: draft.background,
                        verbose: draft.verbose,
                    },
                    false,
                )
            }
        } else if arg == "--connections"@ || arg == "-c"@ {
            if at + 1 >= args.len() {
                Err(ArgsErrorView::MissingValue(arg))
            } else if draft.connections is Some {
                Err(ArgsErrorView::Duplicate(arg))
            } else {
                match connections_of(args[at + 1]) {
                    None => Err(ArgsErrorView::InvalidConnections(args[at + 1])),
                    Some(n) => read_args(
                        args,
                        at + 2,
                        ArgsDraft {
                            url: draft.url,
                            output: draft.output,
                            connections: Some(n),
                            background: draft.background,
                            verbose: draft.verbose,
                        },
                        false,
                    ),
                }
            }
        } else {
            Err(ArgsErrorView::Unrecognized(arg))
        }
    }
}

/// What a command line asks for: its arguments read from the first to the
/// last, with one connection where none is asked for. A command line
/// without `--url` is not taken.
pub open spec fn parse_args(args: Seq<Seq<char>>) -> Result<CommandLineArgsView, ArgsErrorView> {
    match read_args(args, 0, empty_draft(), false) {
        Err(e) => Err(e),
        Ok(draft) => match draft.url {
            None => Err(ArgsErrorView::MissingUrl),
            Some(url) => Ok(
                CommandLineArgsView {
                    url,
                    output: draft.output,
                    connections: match draft.connections {
                        Some(n) => n,
                        None => MIN_CONNECTIONS,
                    },
                    background: draft.background,
                    verbose: draft.verbose,
                },
            ),
        },
    }
}

/// The arguments of a command line as character sequences.
pub open spec fn arg_texts(args: Seq<&str>) -> Seq<Seq<char>> {
    Seq::new(args.len(), |i: int| args[i]@)
}

/// The characters of a text that may be absent.
pub open spec fn option_text(text: Option<String>) -> Option<Seq<char>> {
    match text {
        Some(s) => Some(s@),
        None => None,
    }
}

/// Reads the number of connections off the value of `--connections`.
pub fn parse_connections(value: &str) -> (connections: Option<u8>)
    ensures
        connections == connections_of(value@),
        connections matches Some(n) ==> MIN_CONNECTIONS <= n <= MAX_CONNECTIONS,
{
    match parse_u64(value) {
        Some(n) => if n >= 1 && n <= 100 {
            Some(n as u8)
        } else {
            None
        },
        None => None,
    }
}

impl CommandLineArgs {
    /// Whether the number of connections is one that the downloader works
    /// with.
    pub open spec fn wf(&self) -> bool {
        MIN_CONNECTIONS <= self.connections <= MAX_CONNECTIONS
    }

    /// Whether the number of connections is one that the downloader works
    /// with.
    pub fn is_valid(&self) -> (ok: bool)
        ensures
            ok == self.wf(),
    {
        self.connections >= MIN_CONNECTIONS && self.connections <= MAX_CONNECTIONS
    }

    /// Reads a command line. `command_name` is the name that the program
    /// was called by and `args` are the arguments behind it.
    pub fn from_args(command_name: &[&str], args: &[&str]) -> (parsed: Result<
        CommandLineArgs,
        ArgsError,
    >)
        ensures
            match parsed {
                Ok(found) => parse_args(arg_texts(args@)) == Ok::<
                    CommandLineArgsView,
                    ArgsErrorView,
                >(found@) && found.wf(),
                Err(e) => parse_args(arg_texts(args@)) == Err::<CommandLineArgsView, ArgsErrorView>(
                    e@,
                ),
            },
    {
        let ghost texts = arg_texts(args@);
        let mut url: Option<String> = None;
        let mut output: Option<String> = None;
        let mut connections: Option<u8> = None;
        let mut background: bool = false;
        let mut verbose: bool = false;
        let mut options_ended: bool = false;
        let mut at: usize = 0;
        while at < args.len()
            invariant
                at <= args@.len(),
                texts == arg_texts(args@),
                texts.len() == args@.len(),
                connections matches Some(n) ==> MIN_CONNECTIONS <= n <= MAX_CONNECTIONS,
                read_args(texts, 0, empty_draft(), false) == read_args(
                    texts,
                    at as int,
                    ArgsDraft {
                        url: option_text(url),
                        output: option_text(output),
                        connections,
                        background,
                        verbose,
                    },
                    options_ended,
                ),
            decreases args@.len() - at,
        {
            let arg: &str = args[at];
            assert(texts[at as int] == arg@);
            if options_ended {
                return Err(ArgsError::Unrecognized(String::from_str(arg)));
            } else if same_text(arg, "--help") || same_text(arg, "help") {
                return Err(ArgsError::Help);
            } else if same_text(arg, "--") {
                options_ended = true;
                at = at + 1;
            } else if same_text(arg, "--background") || same_text(arg, "-b") {
                background = true;
                at = at + 1;
            } else if same_text(arg, "--verbose") || same_text(arg, "-v") {
                verbose = true;
                at = at + 1;
            } else if same_text(arg, "--url") || same_text(arg, "-u") {
                if at + 1 >= args.len() {
                    return Err(ArgsError::MissingValue(String::from_str(arg)));
                } else if url.is_some() {
                    return Err(ArgsError::Duplicate(String::from_str(arg)));
                } else {
                    assert(texts[at + 1] == args@[at + 1]@);
                    url = Some(String::from_str(args[at + 1]));
                    at = at + 2;
                }
            } else if same_text(arg, "--output") || same_text(arg, "-o") {
                if at + 1 >= args.len() {
                    return Err(ArgsError::MissingValue(String::from_str(arg)));
                } else if output.is_some() {
                    return Err(ArgsError::Duplicate(String::from_str(arg)));
                } else {
                    assert(texts[at + 1] == args@[at + 1]@);
                    output = Some(String::from_str(args[at + 1]));
                    at = at + 2;
                }
            } else if same_text(arg, "--connections") || same_text(arg, "-c") {
                if at + 1 >= args.len() {
                    return Err(ArgsError::MissingValue(String::from_str(arg)));
                } else if connections.is_some() {
                    return Err(ArgsError::Duplicate(String::from_str(arg)));
                } else {
                    assert(texts[at + 1] == args@[at + 1]@);
                    match parse_connections(args[at + 1]) {
                        None => {
                            return Err(
                                ArgsError::InvalidConnections(String::from_str(args[at + 1])),
                            );
                        },
                        Some(n) => {
                            connections = Some(n);
                            at = at + 2;
                        },
                    }
                }
            } else {
                return Err(ArgsError::Unrecognized(String::from_str(arg)));
            }
        }
        match url {
            None => Err(ArgsError::MissingUrl),
            Some(url) => Ok(
                CommandLineArgs {
                    url,
                    output,
                    connections: match connections {
                        Some(n) => n,
                        None => MIN_CONNECTIONS,
                    },
                    background,
                    verbose,
                },
            ),
        }
    }
}

} // verus!
