//! Whether the security context is supplied, and from which graph.

use std::path::PathBuf;
use vstd::prelude::*;

use crate::text::{lower, same_text, to_lower, trim, trimmed};

verus! {

/// `std::path::PathBuf`, carried from the caller to the caller.
#[verifier::external_type_specification]
#[verifier::external_body]
pub struct ExPathBuf(std::path::PathBuf);

/// `PathBuf::clone` returns a duplicate of the path.
pub assume_specification[ <std::path::PathBuf as Clone>::clone ](
    path: &std::path::PathBuf,
) -> (r: std::path::PathBuf)
    ensures
        r == *path,
;

/// Explicit options also let callers isolate experiments without global state.
#[derive(Debug, Clone)]
pub struct ContextOptions {
    pub enabled: bool,
    /// Relative paths resolve against the session directory, not the daemon's.
    pub graph_path: Option<PathBuf>,
}

impl Default for ContextOptions {
    /// Enabled, with the graph that is discovered.
    fn default() -> (r: ContextOptions)
        ensures
            r.enabled,
            r.graph_path is None,
    {
        ContextOptions { enabled: true, graph_path: None }
    }
}

/// An environment variable as it is found.
#[derive(Debug, Clone, PartialEq, Eq)]
pub enum EnvText {
    Absent,
    Text(String),
    /// It is not Unicode: its value as it is displayed.
    NotUnicode(String),
}

/// What is wrong with the environment's options.
#[derive(Debug, Clone, PartialEq, Eq)]
pub enum OptionsError {
    /// The switch is none of the words for on and off.
    UnknownSwitch,
    /// The switch is not Unicode: its value as it is displayed.
    NotUnicode(String),
}

/// The word switches the context on.
pub open spec fn is_on(word: Seq<char>) -> bool {
    word == "1"@ || word == "true"@ || word == "on"@
}

/// The word switches the context off.
pub open spec fn is_off(word: Seq<char>) -> bool {
    word == "0"@ || word == "false"@ || word == "off"@
}

/// What the switch says, regardless of case and of white space around it. The
/// context is on where there is no switch.
pub open spec fn switch(found: EnvText) -> Result<bool, OptionsError> {
    match found {
        EnvText::Absent => Ok(true),
        EnvText::NotUnicode(shown) => Err(OptionsError::NotUnicode(shown)),
        EnvText::Text(value) => {
            let word = lower(trimmed(value@));
            if is_on(word) {
                Ok(true)
            } else if is_off(word) {
                Ok(false)
            } else {
                Err(OptionsError::UnknownSwitch)
            }
        },
    }
}

fn read_switch(found: &EnvText) -> (r: Result<bool, OptionsError>)
    ensures
        r == switch(*found),
{
    match found {
        EnvText::Absent => Ok(true),
        EnvText::NotUnicode(shown) => Err(OptionsError::NotUnicode(shown.clone())),
        EnvText::Text(value) => {
            let word = to_lower(trim(value.as_str()).as_str());
            let word = word.as_str();
            if same_text(word, "1") || same_text(word, "true") || same_text(word, "on") {
                Ok(true)
            } else if same_text(word, "0") || same_text(word, "false") || same_text(word, "off") {
                Ok(false)
            } else {
                Err(OptionsError::UnknownSwitch)
            }
        },
    }
}

impl ContextOptions {
    /// The options that the environment gives: `found` is the variable
    /// `JCODE_SECURITY_GRAPH`, `graph_path` the variable `JCODE_SECURITY_GRAPH_PATH`.
    pub fn from_env(found: &EnvText, graph_path: Option<PathBuf>) -> (r: Result<
        ContextOptions,
        OptionsError,
    >)
        ensures
            match r {
                Ok(options) => switch(*found) == Ok::<_, OptionsError>(options.enabled)
                    && options.graph_path == graph_path,
                Err(e) => switch(*found) == Err::<bool, _>(e),
            },
    {
        match read_switch(found) {
            Ok(enabled) => Ok(ContextOptions { enabled, graph_path }),
            Err(e) => Err(e),
        }
    }
}

/// The sentence for an error.
pub open spec fn options_text(e: OptionsError) -> Seq<char> {
    match e {
        OptionsError::UnknownSwitch =>
            "JCODE_SECURITY_GRAPH must be on/off, true/false, or 1/0"@,
        OptionsError::NotUnicode(shown) => "environment variable was not valid unicode: "@ + shown@,
    }
}

impl OptionsError {
    /// The sentence for an error.
    pub fn message(&self) -> (r: String)
        ensures
            r@ == options_text(*self),
    {
        match self {
            OptionsError::UnknownSwitch =>
                "JCODE_SECURITY_GRAPH must be on/off, true/false, or 1/0".to_owned(),
            OptionsError::NotUnicode(shown) => {
                let mut out = "environment variable was not valid unicode: ".to_owned();
                out.append(shown.as_str());
                out
            },
        }
    }
}

/// No word switches the context both on and off.
pub proof fn on_and_off_differ(word: Seq<char>)
    ensures
        !(is_on(word) && is_off(word)),
{
    reveal_strlit("1");
    reveal_strlit("true");
    reveal_strlit("on");
    reveal_strlit("0");
    reveal_strlit("false");
    reveal_strlit("off");
    assert("1"@.len() == 1 && "true"@.len() == 4 && "on"@.len() == 2);
    assert("0"@.len() == 1 && "false"@.len() == 5 && "off"@.len() == 3);
    assert("1"@[0] != "0"@[0]);
}

/// The switch is on exactly for three words and where it is absent, off exactly for three
/// others, and an error for everything else. The case of the letters and the white space
/// around a word do not count.
pub proof fn switch_has_six_words(value: String, shown: String)
    ensures
        switch(EnvText::Absent) == Ok::<bool, OptionsError>(true),
        switch(EnvText::NotUnicode(shown)) == Err::<bool, _>(OptionsError::NotUnicode(shown)),
        switch(EnvText::Text(value)) == Ok::<bool, OptionsError>(true) <==> lower(trimmed(value@))
            == "1"@ || lower(trimmed(value@)) == "true"@ || lower(trimmed(value@)) == "on"@,
        switch(EnvText::Text(value)) == Ok::<bool, OptionsError>(false) <==> lower(trimmed(value@))
            == "0"@ || lower(trimmed(value@)) == "false"@ || lower(trimmed(value@)) == "off"@,
        switch(EnvText::Text(value)) matches Err(e) ==> e == OptionsError::UnknownSwitch,
{
    on_and_off_differ(lower(trimmed(value@)));
}

} // verus!
