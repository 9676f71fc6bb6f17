//! The configuration of one search and how it is read from invocation tokens.

use vstd::prelude::*;

verus! {

/// What to search for, where, and how.
#[derive(Debug)]
pub struct Config {
    pub file_path: String,
    pub query: String,
    pub case_sensitive: bool,
}

/// Why a configuration could not be built.
#[derive(Debug, Clone, Copy, PartialEq, Eq, Structural)]
pub enum ConfigError {
    /// No token follows the program's name.
    MissingQuery,
    /// No token follows the query.
    MissingFilePath,
}

/// A configuration as plain values.
pub struct ConfigView {
    pub file_path: Seq<char>,
    pub query: Seq<char>,
    pub case_sensitive: bool,
}

impl View for Config {
    type V = ConfigView;

    open spec fn view(&self) -> ConfigView {
        ConfigView {
            file_path: self.file_path@,
            query: self.query@,
            case_sensitive: self.case_sensitive,
        }
    }
}

/// The texts of a sequence of tokens.
pub open spec fn token_texts(tokens: Seq<String>) -> Seq<Seq<char>> {
    Seq::new(tokens.len(), |i: int| tokens[i]@)
}

/// What a sequence of invocation tokens configures.
///
/// The first token is the program's name and is passed over. The second is
/// the query, the third the path of the file. A fourth token, whatever it
/// holds, asks for a case-sensitive search; tokens after it are ignored.
pub open spec fn configured(tokens: Seq<Seq<char>>) -> Result<ConfigView, ConfigError> {
    if tokens.len() < 2 {
        Err(ConfigError::MissingQuery)
    } else if tokens.len() < 3 {
        Err(ConfigError::MissingFilePath)
    } else {
        Ok(ConfigView { file_path: tokens[2], query: tokens[1], case_sensitive: tokens.len() > 3 })
    }
}

/// The outcome of [`Config::new`] as plain values.
pub open spec fn outcome_view(outcome: Result<Config, ConfigError>) -> Result<
    ConfigView,
    ConfigError,
> {
    match outcome {
        Ok(config) => Ok(config@),
        Err(e) => Err(e),
    }
}

impl Config {
    /// Builds the configuration from the tokens of an invocation, the
    /// program's name first. The query and the path are taken as they stand,
    /// untrimmed and unchecked.
    ///
    /// Case sensitivity goes by the presence of a fourth token, not by what
    /// it holds: an empty one, or one that reads `false`, switches it on too.
    pub fn new(args: &[String]) -> (outcome: Result<Config, ConfigError>)
        ensures
            outcome_view(outcome) == configured(token_texts(args@)),
    {
        if args.len() < 2 {
            return Err(ConfigError::MissingQuery);
        }
        if args.len() < 3 {
            return Err(ConfigError::MissingFilePath);
        }
        let query = args[1].clone();
        let file_path = args[2].clone();
        let case_sensitive = args.len() > 3;
        Ok(Config { file_path, query, case_sensitive })
    }
}

impl ConfigError {
    /// The message to show to whoever started the program.
    pub fn message(&self) -> (text: &'static str)
        ensures
            text@ == self.message_text(),
    {
        match self {
            ConfigError::MissingQuery => "Need a search query",
            ConfigError::MissingFilePath => "Need a valid path",
        }
    }

    /// The text of [`ConfigError::message`].
    pub open spec fn message_text(&self) -> Seq<char> {
        match self {
            ConfigError::MissingQuery => "Need a search query"@,
            ConfigError::MissingFilePath => "Need a valid path"@,
        }
    }
}

} // verus!
