//! The command line of both programs: `-s/--server <host>`,
//! `-p/--port <port>` and `-h/--help`.

use vstd::prelude::*;
use vstd::string::StringExecFns;

verus! {

pub const DEFAULT_PORT: u16 = 8080;

/// The option that lacks its value.
#[derive(Clone, Copy, Debug, PartialEq, Eq, Structural)]
pub enum Flag {
    Server,
    Port,
}

/// Why the command line was turned down.
#[derive(Clone, Debug)]
pub enum ArgError {
    MissingValue { flag: Flag },
    InvalidPort { value: String },
    UnknownArgument { argument: String },
}

/// What the command line asks for.
#[derive(Clone, Debug)]
pub enum AddrArgs {
    /// Run against this address.
    Address { host: String, port: u16 },
    /// Print the usage and stop.
    Help,
}

/// Mathematical content of the outcome of parsing a command line.
pub enum ArgsView {
    Address { host: Seq<char>, port: u16 },
    Help,
    MissingValue { flag: Flag },
    InvalidPort { value: Seq<char> },
    UnknownArgument { argument: Seq<char> },
}

/// The port that `str::parse::<u16>` reads from `text`, if it reads one.
pub uninterp spec fn parsed_u16(text: Seq<char>) -> Option<u16>;

/// Parses a port number with `str::parse::<u16>`. Whether a text parses,
/// and to what, is a function of the text alone.
#[verifier::external_body]
fn parse_port(text: &str) -> (port: Option<u16>)
    ensures
        port == parsed_u16(text@),
{
    match text.parse::<u16>() {
        Ok(port) => Some(port),
        Err(_) => None,
    }
}

pub open spec fn is_server_flag(arg: Seq<char>) -> bool {
    arg == "-s"@ || arg == "--server"@
}

pub open spec fn is_port_flag(arg: Seq<char>) -> bool {
    arg == "-p"@ || arg == "--port"@
}

pub open spec fn is_help_flag(arg: Seq<char>) -> bool {
    arg == "-h"@ || arg == "--help"@
}

/// The outcome of reading the arguments from position `at` on, with
/// `host` and `port` as they stand so far. Arguments are read left to
/// right; a later option overrides an earlier one, and the first call for
/// help or the first fault ends the reading.
pub open spec fn parsed_from(args: Seq<Seq<char>>, at: int, host: Seq<char>, port: u16) -> ArgsView
    decreases args.len() - at,
{
    if at < 0 || at >= args.len() {
        ArgsView::Address { host, port }
    } else if is_server_flag(args[at]) {
        if at + 1 >= args.len() {
            ArgsView::MissingValue { flag: Flag::Server }
        } else {
            parsed_from(args, at + 2, args[at + 1], port)
        }
    } else if is_port_flag(args[at]) {
        if at + 1 >= args.len() {
            ArgsView::MissingValue { flag: Flag::Port }
        } else {
            match parsed_u16(args[at + 1]) {
                Some(value) => parsed_from(args, at + 2, host, value),
                None => ArgsView::InvalidPort { value: args[at + 1] },
            }
        }
    } else if is_help_flag(args[at]) {
        ArgsView::Help
    } else {
        ArgsView::UnknownArgument { argument: args[at] }
    }
}

/// The outcome of reading a whole command line, program name left out.
pub open spec fn parsed_args(args: Seq<Seq<char>>) -> ArgsView {
    parsed_from(args, 0, "127.0.0.1"@, DEFAULT_PORT)
}

pub open spec fn outcome_view(outcome: Result<AddrArgs, ArgError>) -> ArgsView {
    match outcome {
        Ok(AddrArgs::Address { host, port }) => ArgsView::Address { host: host@, port },
        Ok(AddrArgs::Help) => ArgsView::Help,
        Err(ArgError::MissingValue { flag }) => ArgsView::MissingValue { flag },
        Err(ArgError::InvalidPort { value }) => ArgsView::InvalidPort { value: value@ },
        Err(ArgError::UnknownArgument { argument }) => ArgsView::UnknownArgument {
            argument: argument@,
        },
    }
}

/// The texts of a list of arguments.
pub open spec fn arg_texts(args: Seq<String>) -> Seq<Seq<char>> {
    Seq::new(args.len(), |i: int| args[i]@)
}

fn is_text(arg: &String, text: &str) -> (same: bool)
    ensures
        same == (arg@ == text@),
{
    let other = String::from_str(text);
    *arg == other
}

/// Reads the address to use from the command line, program name left
/// out.
pub fn parse_server_addr_args(args: &Vec<String>) -> (outcome: Result<AddrArgs, ArgError>)
    ensures
        outcome_view(outcome) == parsed_args(arg_texts(args@)),
{
    let ghost texts = arg_texts(args@);
    let mut host = String::from_str("127.0.0.1");
    let mut port: u16 = DEFAULT_PORT;
    let mut i: usize = 0;
    while i < args.len()
        invariant
            i <= args.len(),
            texts == arg_texts(args@),
            parsed_from(texts, i as int, host@, port) == parsed_args(texts),
        decreases args.len() - i,
    {
        let arg = &args[i];
        assert(texts[i as int] == arg@);
        if is_text(arg, "-s") || is_text(arg, "--server") {
            if i + 1 >= args.len() {
                return Err(ArgError::MissingValue { flag: Flag::Server });
            }
            assert(texts[i + 1] == args[i + 1]@);
            host = args[i + 1].clone();
            i += 2;
        } else if is_text(arg, "-p") || is_text(arg, "--port") {
            if i + 1 >= args.len() {
                return Err(ArgError::MissingValue { flag: Flag::Port });
            }
            assert(texts[i + 1] == args[i + 1]@);
            match parse_port(args[i + 1].as_str()) {
                Some(value) => {
                    port = value;
                },
                None => {
                    return Err(ArgError::InvalidPort { value: args[i + 1].clone() });
                },
            }
            i += 2;
        } else if is_text(arg, "-h") || is_text(arg, "--help") {
            return Ok(AddrArgs::Help);
        } else {
            return Err(ArgError::UnknownArgument { argument: arg.clone() });
        }
    }
    Ok(AddrArgs::Address { host, port })
}

} // verus!
