//! The command line: which options there are, and how a list of arguments is
//! read with them.

use crate::config::{
    config_errors, interpret, invocation_of, lemma_settings_have_letters, optional_text, Arguments,
    ArgumentsView, Invocation, InvocationView,
};
use getopts::{Matches, Options};
use vstd::prelude::*;
use vstd::slice::slice_subrange;
use vstd::string::StringExecFns;
use vstd::utf8::is_ascii_chars;

verus! {

/// A description of the options that a program takes.
#[verifier::external_type_specification]
#[verifier::external_body]
pub struct ExOptions(getopts::Options);

/// What parsing a command line found.
#[verifier::external_type_specification]
#[verifier::external_body]
pub struct ExMatches(getopts::Matches);

/// One option of a program, as it was described.
pub struct OptionGroup {
    /// The name after one dash, or empty for none.
    pub short: Seq<char>,
    /// The name after two dashes, or empty for none.
    pub long: Seq<char>,
    /// What the help text says of the option.
    pub description: Seq<char>,
    /// What the help text shows in the place of the argument.
    pub hint: Seq<char>,
    /// Whether the option comes with an argument.
    pub takes_argument: bool,
}

/// The occurrences of each option on a command line, by each name of the
/// option, in order: the argument that an occurrence came with, or `None`
/// for one that came with no argument.
pub type Occurrences = Map<Seq<char>, Seq<Option<Seq<char>>>>;

/// The options that `options` describes, in the order in which they were
/// added.
pub uninterp spec fn option_groups(options: Options) -> Seq<OptionGroup>;

/// Whether `options` is as [`Options::new`], [`Options::optflag`] and
/// [`Options::optopt`] leave it: free arguments may stand anywhere, a long
/// name takes two dashes, and each option may occur once at most and either
/// always or never comes with an argument.
pub uninterp spec fn plainly_made(options: Options) -> bool;

/// What `matches` holds: the occurrences found, for each name that it can be
/// asked about.
pub uninterp spec fn given_values(matches: Matches) -> Occurrences;

/// What [`Options::parse`] makes of `arguments` with the options `groups`:
/// the occurrences that it finds, or the words in which its failure says,
/// through `Display`, why it found none.
pub uninterp spec fn parse_result(groups: Seq<OptionGroup>, arguments: Seq<Seq<char>>) -> Result<
    Occurrences,
    Seq<char>,
>;

/// The help text that [`Options::usage`] lays out for the options `groups`
/// under the line `brief`.
pub uninterp spec fn usage_text(groups: Seq<OptionGroup>, brief: Seq<char>) -> Seq<char>;

/// An option that takes no argument.
pub open spec fn flag_group(short: Seq<char>, long: Seq<char>, description: Seq<char>) -> OptionGroup {
    OptionGroup { short, long, description, hint: Seq::empty(), takes_argument: false }
}

/// An option that takes an argument.
pub open spec fn argument_group(
    short: Seq<char>,
    long: Seq<char>,
    description: Seq<char>,
    hint: Seq<char>,
) -> OptionGroup {
    OptionGroup { short, long, description, hint, takes_argument: true }
}

/// Names that an option can have: a short name of one ASCII character, a long
/// name of more than one character, or both.
pub open spec fn well_named(short: Seq<char>, long: Seq<char>) -> bool {
    &&& short.len() <= 1
    &&& is_ascii_chars(short)
    &&& long.len() != 1
    &&& short.len() + long.len() > 0
}

/// Every option of `groups` is well named.
pub open spec fn all_well_named(groups: Seq<OptionGroup>) -> bool {
    forall|i: int| 0 <= i < groups.len() ==> well_named((#[trigger] groups[i]).short, groups[i].long)
}

/// The names by which the options of `groups` are known: the short and long
/// names that are not empty.
pub open spec fn names_of(groups: Seq<OptionGroup>) -> Set<Seq<char>> {
    Set::new(
        |name: Seq<char>|
            name.len() > 0 && exists|i: int|
                0 <= i < groups.len() && ((#[trigger] groups[i]).short == name || groups[i].long
                    == name),
    )
}

/// The argument of the first occurrence of an option, if it occurred and
/// came with one.
pub open spec fn first_value(occurrences: Seq<Option<Seq<char>>>) -> Option<Seq<char>> {
    if occurrences.len() > 0 {
        occurrences[0]
    } else {
        None
    }
}

/// [`Options::new`] makes a description without any option.
pub assume_specification[ Options::new ]() -> (options: Options)
    ensures
        option_groups(options) == Seq::<OptionGroup>::empty(),
        plainly_made(options),
;

/// [`Options::optflag`] adds, after the options that are there, one that
/// takes no argument and has no hint, and changes nothing else. It panics on
/// a short name of more than one byte and on a long name of one byte; an
/// option without any name makes parsing panic.
#[verifier::external_body]
fn add_flag(options: &mut Options, short: &str, long: &str, description: &str)
    requires
        well_named(short@, long@),
    ensures
        option_groups(*final(options)) == option_groups(*old(options)).push(
            flag_group(short@, long@, description@),
        ),
        plainly_made(*final(options)) == plainly_made(*old(options)),
{
    options.optflag(short, long, description);
}

/// [`Options::optopt`] adds, after the options that are there, one that takes
/// an argument, and changes nothing else. It panics on a short name of more
/// than one byte and on a long name of one byte; an option without any name
/// makes parsing panic.
#[verifier::external_body]
fn add_option(options: &mut Options, short: &str, long: &str, description: &str, hint: &str)
    requires
        well_named(short@, long@),
    ensures
        option_groups(*final(options)) == option_groups(*old(options)).push(
            argument_group(short@, long@, description@, hint@),
        ),
        plainly_made(*final(options)) == plainly_made(*old(options)),
{
    options.optopt(short, long, description, hint);
}

/// [`Options::parse`] reads the arguments with the options described; what
/// comes of it depends on these two alone. Where it succeeds, what it found
/// can be asked about each name of these options, and about no other name.
/// Where it fails, the failure is handed on as the words that its `Display`
/// gives.
#[verifier::external_body]
fn parse(options: &Options, arguments: &[String]) -> (parsed: Result<Matches, String>)
    requires
        plainly_made(*options),
        all_well_named(option_groups(*options)),
    ensures
        match parsed {
            Ok(matches) => parse_result(option_groups(*options), arguments.deep_view()) == Ok::<
                Occurrences,
                Seq<char>,
            >(given_values(matches)),
            Err(reason) => parse_result(option_groups(*options), arguments.deep_view()) == Err::<
                Occurrences,
                Seq<char>,
            >(reason@),
        },
        parsed matches Ok(matches) ==> given_values(matches).dom() == names_of(
            option_groups(*options),
        ),
{
    match options.parse(arguments) {
        Ok(matches) => Ok(matches),
        Err(failure) => Err(failure.to_string()),
    }
}

/// [`Matches::opt_present`] tells whether the option occurred at all. It
/// panics on a name that is not one of the options'.
pub assume_specification[ Matches::opt_present ](matches: &Matches, name: &str) -> (present: bool)
    requires
        given_values(*matches).dom().contains(name@),
    ensures
        present == (given_values(*matches)[name@].len() > 0),
;

/// [`Matches::opt_str`] returns the argument of the option's first
/// occurrence, or `None` where the option did not occur or its first
/// occurrence came with no argument. It panics on a name that is not one of
/// the options'.
pub assume_specification[ Matches::opt_str ](matches: &Matches, name: &str) -> (value: Option<
    String,
>)
    requires
        given_values(*matches).dom().contains(name@),
    ensures
        optional_text(value) == first_value(given_values(*matches)[name@]),
;

/// [`Options::usage`] lays out the help text under the line `brief`, with
/// which the text begins; the text depends on the options and on that line
/// alone.
pub assume_specification[ Options::usage ](options: &Options, brief: &str) -> (text: String)
    requires
        plainly_made(*options),
        all_well_named(option_groups(*options)),
    ensures
        text@ == usage_text(option_groups(*options), brief@),
        brief@.is_prefix_of(text@),
;

/// This program's options.
pub open spec fn program_groups() -> Seq<OptionGroup> {
    seq![
        flag_group("h"@, "help"@, "displays help page"@),
        argument_group("f"@, "file"@, "dictionary file path"@, "FILE"@),
        argument_group("l"@, "letters"@, "list of acceptable letters"@, "LETTERS"@),
        argument_group("u"@, "url"@, "URL to fetch dictionary from"@, "URL"@),
        argument_group("o"@, "output"@, "output file path"@, "OUTPUT"@),
        flag_group("w"@, "words"@, "output only the words"@),
        flag_group("c"@, "count"@, "output only the amount of words"@),
    ]
}

/// The short names of this program's options.
pub open spec fn program_names() -> Set<Seq<char>> {
    set!["h"@, "f"@, "l"@, "u"@, "o"@, "w"@, "c"@]
}

/// This program's options are well named, and known by their short names.
proof fn lemma_program_groups()
    ensures
        all_well_named(program_groups()),
        program_names().subset_of(names_of(program_groups())),
{
    reveal_strlit("h");
    reveal_strlit("help");
    reveal_strlit("f");
    reveal_strlit("file");
    reveal_strlit("l");
    reveal_strlit("letters");
    reveal_strlit("u");
    reveal_strlit("url");
    reveal_strlit("o");
    reveal_strlit("output");
    reveal_strlit("w");
    reveal_strlit("words");
    reveal_strlit("c");
    reveal_strlit("count");
    let groups = program_groups();
    assert(groups[0].short == "h"@);
    assert(groups[1].short == "f"@);
    assert(groups[2].short == "l"@);
    assert(groups[3].short == "u"@);
    assert(groups[4].short == "o"@);
    assert(groups[5].short == "w"@);
    assert(groups[6].short == "c"@);
}

/// Describes this program's options.
fn program_options() -> (options: Options)
    ensures
        option_groups(options) == program_groups(),
        plainly_made(options),
{
    proof {
        lemma_program_groups();
    }
    let mut options = Options::new();
    add_flag(&mut options, "h", "help", "displays help page");
    add_option(&mut options, "f", "file", "dictionary file path", "FILE");
    add_option(&mut options, "l", "letters", "list of acceptable letters", "LETTERS");
    add_option(&mut options, "u", "url", "URL to fetch dictionary from", "URL");
    add_option(&mut options, "o", "output", "output file path", "OUTPUT");
    add_flag(&mut options, "w", "words", "output only the words");
    add_flag(&mut options, "c", "count", "output only the amount of words");
    options
}

/// What the rules are applied to, as the occurrences `values` give it: the
/// file, the address, the letters and the output each from the first
/// occurrence of its option, and the two flags from whether theirs occurred.
pub open spec fn arguments_read(values: Occurrences) -> ArgumentsView {
    ArgumentsView {
        file: first_value(values["f"@]),
        url: first_value(values["u"@]),
        letters: first_value(values["l"@]),
        output: first_value(values["o"@]),
        words: values["w"@].len() > 0,
        count: values["c"@].len() > 0,
    }
}

/// Reads from `matches` what the rules are applied to.
fn read_arguments(matches: &Matches) -> (arguments: Arguments)
    requires
        program_names().subset_of(given_values(*matches).dom()),
    ensures
        arguments@ == arguments_read(given_values(*matches)),
{
    assert(program_names().contains("f"@) && program_names().contains("u"@)
        && program_names().contains("l"@) && program_names().contains("o"@)
        && program_names().contains("w"@) && program_names().contains("c"@));
    Arguments {
        file: matches.opt_str("f"),
        url: matches.opt_str("u"),
        letters: matches.opt_str("l"),
        output: matches.opt_str("o"),
        words: matches.opt_present("w"),
        count: matches.opt_present("c"),
    }
}

/// The first line of the help text.
pub open spec fn usage_brief_of(program: Seq<char>) -> Seq<char> {
    "Usage: "@ + program + " [options]"@
}

/// The first line of the help text of the program called `program`.
pub fn usage_brief(program: &str) -> (brief: String)
    ensures
        brief@ == usage_brief_of(program@),
{
    let mut brief = String::from_str("Usage: ");
    brief.append(program);
    brief.append(" [options]");
    brief
}

/// What the command line `args` leads to, `args[0]` being the program's name
/// and the rest its arguments.
///
/// Arguments that cannot be taken apart with this program's options give the
/// reason. Otherwise the option `h` decides whether help was asked for, and
/// [`invocation_of`] says what the values read lead to.
pub open spec fn command_line_outcome(args: Seq<Seq<char>>) -> InvocationView
    recommends
        args.len() > 0,
{
    match parse_result(program_groups(), args.skip(1)) {
        Err(reason) => InvocationView::Unreadable(reason),
        Ok(values) => invocation_of(
            values["h"@].len() > 0,
            usage_text(program_groups(), usage_brief_of(args[0])),
            arguments_read(values),
        ),
    }
}

/// Reads a command line: `args[0]` is the program's name, the rest its
/// arguments.
///
/// A command line that cannot be taken apart gives `Unreadable` with the
/// reason. Otherwise a call for help (`-h`) gives the help text, broken rules
/// give their list, and all else gives the settings to run with.
pub fn setup_options(args: &Vec<String>) -> (outcome: Invocation)
    requires
        args.len() > 0,
    ensures
        outcome@ == command_line_outcome(args.deep_view()),
        outcome matches Invocation::Help(usage) ==> usage_brief_of(args[0]@).is_prefix_of(usage@),
        outcome matches Invocation::Run(settings) ==> settings.letters@.len() > 0,
{
    let options = program_options();
    let arguments = slice_subrange(args.as_slice(), 1, args.len());
    proof {
        lemma_program_groups();
        assert(arguments.deep_view() == args.deep_view().skip(1));
    }
    match parse(&options, arguments) {
        Err(reason) => Invocation::Unreadable(reason),
        Ok(matches) => {
            assert(program_names().contains("h"@));
            let help = matches.opt_present("h");
            let usage = if help {
                options.usage(usage_brief(args[0].as_str()).as_str())
            } else {
                String::new()
            };
            let arguments = read_arguments(&matches);
            proof {
                if !help && config_errors(arguments@).len() == 0 {
                    lemma_settings_have_letters(arguments@);
                }
            }
            interpret(help, usage, arguments)
        },
    }
}

} // verus!
