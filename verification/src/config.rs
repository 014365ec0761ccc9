//! What a command line asks for, the rules it has to keep, and what to do
//! with it.

use vstd::prelude::*;

verus! {

/// What was read from a command line, before any rule is applied.
#[derive(Debug, PartialEq, Eq)]
pub struct Arguments {
    /// Path of the dictionary file (`-f`).
    pub file: Option<String>,
    /// Address to fetch the dictionary from (`-u`).
    pub url: Option<String>,
    /// The allowed letters (`-l`).
    pub letters: Option<String>,
    /// Path of the file to write to (`-o`); standard output without it.
    pub output: Option<String>,
    /// Only the words are wanted (`-w`).
    pub words: bool,
    /// Only the number of words is wanted (`-c`).
    pub count: bool,
}

/// A rule that a command line breaks.
#[derive(Clone, Copy, Debug, PartialEq, Eq, Structural)]
pub enum ConfigError {
    /// Both a file and an address were given.
    TwoSources,
    /// Neither a file nor an address was given.
    NoSource,
    /// No letters were given: the option is missing, or it came with an
    /// empty list of letters.
    NoLetters,
    /// Both "only words" and "only count" were asked for.
    WordsAndCount,
}

/// Where the dictionary comes from.
#[derive(Debug, PartialEq, Eq)]
pub enum Source {
    /// A local text file, by its path.
    File(String),
    /// A remote text resource, by its address.
    Remote(String),
}

/// A command line that keeps every rule.
#[derive(Debug, PartialEq, Eq)]
pub struct Settings {
    /// The allowed letters.
    pub letters: String,
    /// Where the dictionary comes from.
    pub source: Source,
    /// Path of the file to write to; standard output without it.
    pub output: Option<String>,
    /// Only the words are wanted.
    pub words: bool,
    /// Only the number of words is wanted.
    pub count: bool,
}

/// What a command line leads to.
#[derive(Debug, PartialEq, Eq)]
pub enum Invocation {
    /// The command line could not be taken apart: this is the reason.
    Unreadable(String),
    /// Help was asked for: show this text and stop.
    Help(String),
    /// Rules are broken: report them and stop.
    Invalid(Vec<ConfigError>),
    /// All is in order: run with these settings.
    Run(Settings),
}

/// [`Arguments`] with each text as its sequence of characters.
pub struct ArgumentsView {
    pub file: Option<Seq<char>>,
    pub url: Option<Seq<char>>,
    pub letters: Option<Seq<char>>,
    pub output: Option<Seq<char>>,
    pub words: bool,
    pub count: bool,
}

/// [`Source`] with each text as its sequence of characters.
pub enum SourceView {
    File(Seq<char>),
    Remote(Seq<char>),
}

/// [`Settings`] with each text as its sequence of characters.
pub struct SettingsView {
    pub letters: Seq<char>,
    pub source: SourceView,
    pub output: Option<Seq<char>>,
    pub words: bool,
    pub count: bool,
}

/// [`Invocation`] with each text as its sequence of characters.
pub enum InvocationView {
    Unreadable(Seq<char>),
    Help(Seq<char>),
    Invalid(Seq<ConfigError>),
    Run(SettingsView),
}

/// The characters of a text that may be missing.
pub open spec fn optional_text(value: Option<String>) -> Option<Seq<char>> {
    match value {
        Some(text) => Some(text@),
        None => None,
    }
}

impl View for Arguments {
    type V = ArgumentsView;

    open spec fn view(&self) -> ArgumentsView {
        ArgumentsView {
            file: optional_text(self.file),
            url: optional_text(self.url),
            letters: optional_text(self.letters),
            output: optional_text(self.output),
            words: self.words,
            count: self.count,
        }
    }
}

impl View for Source {
    type V = SourceView;

    open spec fn view(&self) -> SourceView {
        match self {
            Source::File(path) => SourceView::File(path@),
            Source::Remote(address) => SourceView::Remote(address@),
        }
    }
}

impl View for Settings {
    type V = SettingsView;

    open spec fn view(&self) -> SettingsView {
        SettingsView {
            letters: self.letters@,
            source: self.source@,
            output: optional_text(self.output),
            words: self.words,
            count: self.count,
        }
    }
}

impl View for Invocation {
    type V = InvocationView;

    open spec fn view(&self) -> InvocationView {
        match self {
            Invocation::Unreadable(reason) => InvocationView::Unreadable(reason@),
            Invocation::Help(usage) => InvocationView::Help(usage@),
            Invocation::Invalid(errors) => InvocationView::Invalid(errors@),
            Invocation::Run(settings) => InvocationView::Run(settings@),
        }
    }
}

/// The rules that `arguments` break, in the order in which they are reported.
pub open spec fn config_errors(arguments: ArgumentsView) -> Seq<ConfigError> {
    let sources: Seq<ConfigError> = if arguments.file is Some && arguments.url is Some {
        seq![ConfigError::TwoSources]
    } else if arguments.file is None && arguments.url is None {
        seq![ConfigError::NoSource]
    } else {
        seq![]
    };
    let letters: Seq<ConfigError> = if arguments.letters is None || arguments.letters->0.len() == 0 {
        seq![ConfigError::NoLetters]
    } else {
        seq![]
    };
    let shown: Seq<ConfigError> = if arguments.words && arguments.count {
        seq![ConfigError::WordsAndCount]
    } else {
        seq![]
    };
    sources + letters + shown
}

/// The settings that `arguments` stand for, where they break no rule. An
/// address is preferred to a file.
pub open spec fn settings_of(arguments: ArgumentsView) -> SettingsView
    recommends
        config_errors(arguments).len() == 0,
{
    SettingsView {
        letters: arguments.letters->0,
        source: if arguments.url is Some {
            SourceView::Remote(arguments.url->0)
        } else {
            SourceView::File(arguments.file->0)
        },
        output: arguments.output,
        words: arguments.words,
        count: arguments.count,
    }
}

/// What a command line leads to on which `help` and `arguments` were read,
/// `usage` being the help text: the help text where help was asked for, which
/// is served before any rule is looked at; else the broken rules where there
/// are any; else the settings to run with.
pub open spec fn invocation_of(help: bool, usage: Seq<char>, arguments: ArgumentsView) -> InvocationView {
    if help {
        InvocationView::Help(usage)
    } else if config_errors(arguments).len() > 0 {
        InvocationView::Invalid(config_errors(arguments))
    } else {
        InvocationView::Run(settings_of(arguments))
    }
}

impl ConfigError {
    /// The sentence that tells the user of this error.
    pub open spec fn text(self) -> Seq<char> {
        match self {
            ConfigError::TwoSources => "Can't fetch the dictionary from both a file and URL at the same time!"@,
            ConfigError::NoSource => "Provide at least a file dictionary or a url to a dictionary!"@,
            ConfigError::NoLetters => "Provide a list of letters!"@,
            ConfigError::WordsAndCount => "Select only words or count, both are enabled by default, so remove those arguments!"@,
        }
    }

    /// The sentence that tells the user of this error.
    pub fn message(&self) -> (sentence: &'static str)
        ensures
            sentence@ == self.text(),
    {
        match self {
            ConfigError::TwoSources => "Can't fetch the dictionary from both a file and URL at the same time!",
            ConfigError::NoSource => "Provide at least a file dictionary or a url to a dictionary!",
            ConfigError::NoLetters => "Provide a list of letters!",
            ConfigError::WordsAndCount => "Select only words or count, both are enabled by default, so remove those arguments!",
        }
    }
}

impl Settings {
    /// Whether the words themselves are part of the output: unless only the
    /// count was asked for.
    pub open spec fn words_shown(self) -> bool {
        (self.words && !self.count) || (!self.words && !self.count)
    }

    /// Whether the number of words is part of the output: unless only the
    /// words were asked for.
    pub open spec fn count_shown(self) -> bool {
        self.count || (!self.words && !self.count)
    }

    /// Whether the words themselves are part of the output.
    pub fn shows_words(&self) -> (shown: bool)
        ensures
            shown == self.words_shown(),
    {
        (self.words && !self.count) || (!self.words && !self.count)
    }

    /// Whether the number of words is part of the output.
    pub fn shows_count(&self) -> (shown: bool)
        ensures
            shown == self.count_shown(),
    {
        self.count || (!self.words && !self.count)
    }
}

/// Finds the rules that `arguments` break. An empty list means that they can
/// be run.
pub fn validate_config(arguments: &Arguments) -> (errors: Vec<ConfigError>)
    ensures
        errors@ == config_errors(arguments@),
{
    let mut errors: Vec<ConfigError> = Vec::new();
    if arguments.file.is_some() && arguments.url.is_some() {
        errors.push(ConfigError::TwoSources);
    }
    if !arguments.file.is_some() && !arguments.url.is_some() {
        errors.push(ConfigError::NoSource);
    }
    let no_letters = match &arguments.letters {
        Some(letters) => letters.as_str().is_empty(),
        None => true,
    };
    if no_letters {
        errors.push(ConfigError::NoLetters);
    }
    if arguments.words && arguments.count {
        errors.push(ConfigError::WordsAndCount);
    }
    errors
}

/// Decides what a command line leads to: the help text where `help` was asked
/// for, else the list of broken rules where there is one, else the settings
/// to run with.
pub fn interpret(help: bool, usage: String, arguments: Arguments) -> (outcome: Invocation)
    ensures
        outcome@ == invocation_of(help, usage@, arguments@),
{
    if help {
        return Invocation::Help(usage);
    }
    let errors = validate_config(&arguments);
    if errors.len() != 0 {
        return Invocation::Invalid(errors);
    }
    let Arguments { file, url, letters, output, words, count } = arguments;
    match (letters, url, file) {
        (Some(letters), Some(url), _) => Invocation::Run(
            Settings { letters, source: Source::Remote(url), output, words, count },
        ),
        (Some(letters), None, Some(file)) => Invocation::Run(
            Settings { letters, source: Source::File(file), output, words, count },
        ),
        // Not reached: with no rule broken, the letters and a source are there.
        _ => Invocation::Invalid(errors),
    }
}

/// Settings that were made from arguments have at least one letter.
pub proof fn lemma_settings_have_letters(arguments: ArgumentsView)
    requires
        config_errors(arguments).len() == 0,
    ensures
        settings_of(arguments).letters.len() > 0,
        arguments.letters == Some(settings_of(arguments).letters),
{
}

/// Settings that were made from arguments have exactly one source: the one
/// that the arguments gave.
pub proof fn lemma_settings_have_one_source(arguments: ArgumentsView)
    requires
        config_errors(arguments).len() == 0,
    ensures
        arguments.file is Some != arguments.url is Some,
        arguments.url matches Some(address) ==> settings_of(arguments).source == SourceView::Remote(
            address,
        ),
        arguments.file matches Some(path) ==> settings_of(arguments).source == SourceView::File(
            path,
        ),
{
}

/// Settings that were made from arguments never ask for "only words" and
/// "only count" at once, so something is always shown.
pub proof fn lemma_settings_show_something(arguments: ArgumentsView, settings: Settings)
    requires
        config_errors(arguments).len() == 0,
        settings@ == settings_of(arguments),
    ensures
        !(settings.words && settings.count),
        settings.words_shown() || settings.count_shown(),
{
}

} // verus!
