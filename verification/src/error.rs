//! What can go wrong with the configuration.
use vstd::prelude::*;

verus! {

/// Why there is no configuration, or no place for the program's files.
#[derive(Debug)]
pub enum ConfigError {
    /// The system tells no directory for the file, or the path has no parent.
    NoConfigDir,
    /// A file or directory could not be read or written; holds the system's message.
    Io(String),
    /// The configuration is not what it should be; holds the parser's message.
    Parse(String),
}

/// The error as a value.
pub enum ConfigErrorView {
    NoConfigDir,
    Io(Seq<char>),
    Parse(Seq<char>),
}

impl View for ConfigError {
    type V = ConfigErrorView;

    open spec fn view(&self) -> ConfigErrorView {
        match self {
            ConfigError::NoConfigDir => ConfigErrorView::NoConfigDir,
            ConfigError::Io(message) => ConfigErrorView::Io(message@),
            ConfigError::Parse(message) => ConfigErrorView::Parse(message@),
        }
    }
}

impl ConfigErrorView {
    /// The text that tells a reader of the log about the error.
    pub open spec fn text(self) -> Seq<char> {
        match self {
            ConfigErrorView::NoConfigDir => "could not determine the config directory"@,
            ConfigErrorView::Io(message) => message,
            ConfigErrorView::Parse(message) => message,
        }
    }
}

impl ConfigError {
    /// The text that tells a reader of the log about the error.
    pub fn message(&self) -> (r: String)
        ensures
            r@ == self@.text(),
    {
        match self {
            ConfigError::NoConfigDir => "could not determine the config directory".to_owned(),
            ConfigError::Io(message) => message.clone(),
            ConfigError::Parse(message) => message.clone(),
        }
    }
}

/// What the system or the parser said is told as it was said.
pub proof fn message_is_told_as_it_came(error: ConfigError, r: String)
    requires
        call_ensures(ConfigError::message, (&error,), r),
    ensures
        error matches ConfigError::Io(message) ==> r@ == message@,
        error matches ConfigError::Parse(message) ==> r@ == message@,
        error is NoConfigDir ==> r@ == "could not determine the config directory"@,
{
}

} // verus!
