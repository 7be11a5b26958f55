//! The command line of the benchmarks.
use crate::text;
use crate::text::{decimal, parse_number, NumberError};
use vstd::prelude::*;
use vstd::slice::slice_subrange;
use vstd::string::StringExecFns;

verus! {

/// Contains values obtained from common argument processing.
#[derive(Debug, Clone, Copy, PartialEq, Eq, Structural)]
pub struct CommonTestOpts {
    pub n_iterations: u64,
}

/// The names of an option on the command line.
pub struct OptionNames {
    pub short: &'static str,
    pub long: &'static str,
}

impl OptionNames {
    /// The names are such that the options can be declared: a single ASCII character, and more than
    /// one character.
    pub open spec fn valid(self) -> bool {
        &&& self.short@.len() == 1
        &&& vstd::string::is_ascii(self.short)
        &&& self.long@.len() > 1
    }

    /// The names as text.
    pub open spec fn texts(self) -> (Seq<char>, Seq<char>) {
        (self.short@, self.long@)
    }
}

/// What `getopts::Options::parse` finds on a command line, given the names of a flag and of an option
/// with a value: whether the flag is present, and the value; or what is wrong.
pub uninterp spec fn options_found(
    flag: (Seq<char>, Seq<char>),
    option: (Seq<char>, Seq<char>),
    args: Seq<Seq<char>>,
) -> Result<(bool, Option<Seq<char>>), Seq<char>>;

/// What `getopts::Options::usage` says of a flag and of an option with a value.
pub uninterp spec fn options_usage(
    flag: (Seq<char>, Seq<char>),
    flag_description: Seq<char>,
    option: (Seq<char>, Seq<char>),
    option_description: Seq<char>,
    hint: Seq<char>,
    brief: Seq<char>,
) -> Seq<char>;

/// Strings as text.
pub open spec fn texts(strings: Seq<String>) -> Seq<Seq<char>> {
    strings.map_values(|s: String| s@)
}

/// What has been found on a command line is what a name says.
pub open spec fn is_found(
    found: Result<(bool, Option<String>), String>,
    named: Result<(bool, Option<Seq<char>>), Seq<char>>,
) -> bool {
    match (found, named) {
        (Ok((present, value)), Ok((named_present, named_value))) => {
            &&& present == named_present
            &&& value is Some <==> named_value is Some
            &&& value is Some ==> value->Some_0@ == named_value->Some_0
        },
        (Err(message), Err(named_message)) => message@ == named_message,
        _ => false,
    }
}

/// Declares a flag and an option with a value by `getopts::Options::optflag` and `optopt`, and parses
/// arguments by `parse`. Reports whether the flag is there, by `opt_present`, and the value of the
/// option, by `opt_str`; or the text of the failure. The result depends on nothing but the names and
/// the arguments; where there is no argument, there is neither the flag nor a value.
#[verifier::external_body]
fn find_options(flag: &OptionNames, option: &OptionNames, args: &[String]) -> (found: Result<
    (bool, Option<String>),
    String,
>)
    requires
        flag.valid(),
        option.valid(),
    ensures
        is_found(found, options_found(flag.texts(), option.texts(), texts(args@))),
        args@.len() == 0 ==> found is Ok && !found->Ok_0.0 && found->Ok_0.1 is None,
{
    let mut opts = getopts::Options::new();
    opts.optflag(flag.short, flag.long, "");
    opts.optopt(option.short, option.long, "", "");
    match opts.parse(args) {
        Ok(matches) => Ok((matches.opt_present(flag.short), matches.opt_str(option.short))),
        Err(fail) => Err(fail.to_string()),
    }
}

/// Declares a flag and an option with a value by `getopts::Options::optflag` and `optopt`, and returns
/// what `usage` says of them. The result depends on nothing but the arguments.
#[verifier::external_body]
fn describe_options(
    flag: &OptionNames,
    flag_description: &str,
    option: &OptionNames,
    option_description: &str,
    hint: &str,
    brief: &str,
) -> (usage: String)
    requires
        flag.valid(),
        option.valid(),
    ensures
        usage@ == options_usage(
            flag.texts(),
            flag_description@,
            option.texts(),
            option_description@,
            hint@,
            brief@,
        ),
{
    let mut opts = getopts::Options::new();
    opts.optflag(flag.short, flag.long, flag_description);
    opts.optopt(option.short, option.long, option_description, hint);
    opts.usage(brief)
}

/// What the command line asks for.
pub enum ParsedArgs {
    /// To run the benchmarks.
    Run(CommonTestOpts),
    /// To show this text and exit.
    Help(String),
    /// It is not valid, for the reason given in this text.
    Invalid(String),
    /// The number of iterations, which is this text, is not a number.
    NotANumber(String, NumberError),
}

/// The names of the flag that asks for help.
pub open spec fn help_names() -> (Seq<char>, Seq<char>) {
    ("h"@, "help"@)
}

/// The names of the option that gives the number of iterations.
pub open spec fn iterations_names() -> (Seq<char>, Seq<char>) {
    ("n"@, "iterations"@)
}

/// What to say of the option that gives the number of iterations.
pub open spec fn iterations_description(default_n_iterations: u64) -> Seq<char> {
    "how many iterations to perform in each benchmark (default "@ + text::digits_of(
        default_n_iterations as nat,
    ) + ")"@
}

/// What to say to someone who asks for help.
pub open spec fn help_text(argv0: Seq<char>, default_n_iterations: u64) -> Seq<char> {
    options_usage(
        help_names(),
        "show this message and exit"@,
        iterations_names(),
        iterations_description(default_n_iterations),
        "N"@,
        "Usage: "@ + argv0 + " [OPTIONS]"@,
    )
}

/// What to say when the command line is not valid.
pub open spec fn invalid_text(argv0: Seq<char>, reason: Seq<char>) -> Seq<char> {
    reason + "\nUse '"@ + argv0 + " --help' to see a list of valid options."@
}

/// What the command line asks for, given what has been found on it: help goes before everything else,
/// and without a number of iterations the default is taken.
pub open spec fn asked_for(
    parsed: ParsedArgs,
    found: Result<(bool, Option<Seq<char>>), Seq<char>>,
    argv0: Seq<char>,
    default_n_iterations: u64,
) -> bool {
    match found {
        Err(reason) => parsed is Invalid && parsed->Invalid_0@ == invalid_text(argv0, reason),
        Ok((help, iterations)) => if help {
            parsed is Help && parsed->Help_0@ == help_text(argv0, default_n_iterations)
        } else {
            match iterations {
                None => parsed == ParsedArgs::Run(
                    CommonTestOpts { n_iterations: default_n_iterations },
                ),
                Some(number) => match text::number_of(number) {
                    Ok(n) => parsed == ParsedArgs::Run(CommonTestOpts { n_iterations: n }),
                    Err(error) => parsed is NotANumber && parsed->NotANumber_0@ == number
                        && parsed->NotANumber_1 == error,
                },
            }
        },
    }
}

/// Returns the text of what has been found, as far as it has been found.
pub open spec fn found_texts(found: Result<(bool, Option<String>), String>) -> Result<
    (bool, Option<Seq<char>>),
    Seq<char>,
> {
    match found {
        Ok((help, Some(number))) => Ok((help, Some(number@))),
        Ok((help, None)) => Ok((help, None)),
        Err(reason) => Err(reason@),
    }
}

/// Returns the names of the flag that asks for help.
fn help_option() -> (names: OptionNames)
    ensures
        names.texts() == help_names(),
        names.valid(),
{
    proof {
        reveal_strlit("h");
        reveal_strlit("help");
    }
    assert(vstd::string::is_ascii("h"));
    OptionNames { short: "h", long: "help" }
}

/// Returns the names of the option that gives the number of iterations.
fn iterations_option() -> (names: OptionNames)
    ensures
        names.texts() == iterations_names(),
        names.valid(),
{
    proof {
        reveal_strlit("n");
        reveal_strlit("iterations");
    }
    assert(vstd::string::is_ascii("n"));
    OptionNames { short: "n", long: "iterations" }
}

/// Returns the help that the program gives.
pub fn usage(argv0: &str, default_n_iterations: u64) -> (usage: String)
    ensures
        usage@ == help_text(argv0@, default_n_iterations),
{
    let brief = String::from_str("Usage: ").concat(argv0).concat(" [OPTIONS]");
    let description = String::from_str(
        "how many iterations to perform in each benchmark (default ",
    ).concat(decimal(default_n_iterations).as_str()).concat(")");
    describe_options(
        &help_option(),
        "show this message and exit",
        &iterations_option(),
        description.as_str(),
        "N",
        brief.as_str(),
    )
}

/// Decides what the command line asks for, given what has been found on it.
pub fn judge_args(
    found: Result<(bool, Option<String>), String>,
    argv0: &str,
    default_n_iterations: u64,
) -> (parsed: ParsedArgs)
    ensures
        asked_for(parsed, found_texts(found), argv0@, default_n_iterations),
{
    match found {
        Err(reason) => {
            let message = reason.concat("\nUse '").concat(argv0).concat(
                " --help' to see a list of valid options.",
            );
            ParsedArgs::Invalid(message)
        },
        Ok((help, iterations)) => {
            if help {
                return ParsedArgs::Help(usage(argv0, default_n_iterations));
            }
            // Validate as integer if -n specified
            match iterations {
                Some(number) => match parse_number(number.as_str()) {
                    Ok(n) => ParsedArgs::Run(CommonTestOpts { n_iterations: n }),
                    Err(error) => ParsedArgs::NotANumber(number, error),
                },
                None => ParsedArgs::Run(CommonTestOpts { n_iterations: default_n_iterations }),
            }
        },
    }
}

/// Retrieve a parsed representation of the command-line arguments, the first of which is the name of
/// the program.
pub fn parse_args(args: &Vec<String>, default_n_iterations: u64) -> (parsed: ParsedArgs)
    requires
        args@.len() >= 1,
    ensures
        asked_for(
            parsed,
            options_found(
                help_names(),
                iterations_names(),
                texts(args@.subrange(1, args@.len() as int)),
            ),
            args@[0]@,
            default_n_iterations,
        ),
        args@.len() == 1 ==> parsed == ParsedArgs::Run(
            CommonTestOpts { n_iterations: default_n_iterations },
        ),
{
    let arg_flags = slice_subrange(args.as_slice(), 1, args.len());
    let argv0 = args[0].as_str();
    let found = find_options(&help_option(), &iterations_option(), arg_flags);
    proof {
        let named = options_found(help_names(), iterations_names(), texts(arg_flags@));
        assert(found_texts(found) == named);
    }
    judge_args(found, argv0, default_n_iterations)
}

/// A request for help goes before everything else. Otherwise a number that has been given is the number
/// of iterations, whatever it is, and the default is taken only where none has been given.
pub proof fn law_command_line_decides(
    parsed: ParsedArgs,
    iterations: Option<Seq<char>>,
    n: u64,
    argv0: Seq<char>,
    default_n_iterations: u64,
)
    ensures
        asked_for(parsed, Ok((true, iterations)), argv0, default_n_iterations) ==> parsed is Help
            && parsed->Help_0@ == help_text(argv0, default_n_iterations),
        asked_for(parsed, Ok((false, None)), argv0, default_n_iterations) ==> parsed
            == ParsedArgs::Run(CommonTestOpts { n_iterations: default_n_iterations }),
        asked_for(
            parsed,
            Ok((false, Some(text::digits_of(n as nat)))),
            argv0,
            default_n_iterations,
        ) ==> parsed == ParsedArgs::Run(CommonTestOpts { n_iterations: n }),
{
    text::law_parse_reads_decimal(n);
}

/// What is wrong with a command line is said: the text of a number that cannot be read is given back,
/// and what the option parser says comes first in the message, followed by how to get help.
pub proof fn law_errors_are_reported(
    parsed: ParsedArgs,
    number: Seq<char>,
    reason: Seq<char>,
    argv0: Seq<char>,
    default_n_iterations: u64,
)
    ensures
        text::number_of(number) is Err && asked_for(
            parsed,
            Ok((false, Some(number))),
            argv0,
            default_n_iterations,
        ) ==> parsed is NotANumber && parsed->NotANumber_0@ == number && text::number_of(number)
            == Err::<u64, NumberError>(parsed->NotANumber_1),
        asked_for(parsed, Err(reason), argv0, default_n_iterations) ==> parsed is Invalid && {
            let message = parsed->Invalid_0@;
            &&& message.take(reason.len() as int) == reason
            &&& message.skip(reason.len() as int) == "\nUse '"@ + argv0
                + " --help' to see a list of valid options."@
        },
{
    let tail = "\nUse '"@ + argv0 + " --help' to see a list of valid options."@;
    assert(invalid_text(argv0, reason) =~= reason + tail);
    assert((reason + tail).take(reason.len() as int) =~= reason);
    assert((reason + tail).skip(reason.len() as int) =~= tail);
}

} // verus!
