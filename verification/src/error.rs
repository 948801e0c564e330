//! What can be wrong with a configuration.

use vstd::prelude::*;
use vstd::string::StringExecFns;

verus! {

/// Why a configuration was turned down.
#[derive(Clone, Debug, PartialEq, Eq)]
pub enum ConfigError {
    /// A trigger or a target carries a name that stands for no key or button.
    UnsupportedSymbol(String),
    /// The configuration file's name ends in none of the known extensions.
    UnsupportedFormat,
    /// A step's delay and the global delay together exceed what a delay can hold.
    DelayOverflow,
}

/// A `ConfigError` with the offending name as a sequence of characters.
pub enum ConfigErrorView {
    UnsupportedSymbol(Seq<char>),
    UnsupportedFormat,
    DelayOverflow,
}

impl View for ConfigError {
    type V = ConfigErrorView;

    open spec fn view(&self) -> ConfigErrorView {
        match self {
            ConfigError::UnsupportedSymbol(name) => ConfigErrorView::UnsupportedSymbol(name@),
            ConfigError::UnsupportedFormat => ConfigErrorView::UnsupportedFormat,
            ConfigError::DelayOverflow => ConfigErrorView::DelayOverflow,
        }
    }
}

/// The text shown for an error.
pub open spec fn message_of(error: ConfigErrorView) -> Seq<char> {
    match error {
        ConfigErrorView::UnsupportedSymbol(name) => "Unsupported key: "@ + name,
        ConfigErrorView::UnsupportedFormat => "Unsupported config file format. Use JSON or YAML."@,
        ConfigErrorView::DelayOverflow => "Delay too large"@,
    }
}

impl ConfigError {
    /// The error for a name that stands for nothing.
    pub fn unsupported(name: &str) -> (error: ConfigError)
        ensures
            error@ == ConfigErrorView::UnsupportedSymbol(name@),
    {
        ConfigError::UnsupportedSymbol(name.to_owned())
    }

    /// The text shown for this error.
    pub fn message(&self) -> (text: String)
        ensures
            text@ == message_of(self@),
    {
        match self {
            ConfigError::UnsupportedSymbol(name) => {
                String::from_str("Unsupported key: ").concat(name.as_str())
            },
            ConfigError::UnsupportedFormat => {
                String::from_str("Unsupported config file format. Use JSON or YAML.")
            },
            ConfigError::DelayOverflow => String::from_str("Delay too large"),
        }
    }
}

} // verus!
