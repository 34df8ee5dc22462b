//! User configuration.
//!
//! One optional setting is recognized: the directory holding the
//! external linter.  The configuration file is UTF-8 JSON; a missing
//! or unreadable file, malformed JSON, or a missing or mistyped entry
//! all degrade silently to the defaults.

use vstd::prelude::*;

verus! {

/// The recognized settings.
#[derive(Clone, Debug, PartialEq)]
pub struct Settings {
    pub klc_dir: Option<String>,
}

/// The mathematical image of a [`Settings`].
pub struct SettingsV {
    pub klc_dir: Option<Seq<char>>,
}

impl View for Settings {
    type V = SettingsV;

    open spec fn view(&self) -> SettingsV {
        SettingsV {
            klc_dir: match self.klc_dir {
                Some(ref s) => Some(s@),
                None => None,
            },
        }
    }
}

impl Default for Settings {
    /// No linter directory configured.
    fn default() -> (r: Self)
        ensures
            r@.klc_dir is None,
    {
        Settings { klc_dir: None }
    }
}

/// The linter directory that the configuration text names, if the text
/// is well-formed JSON whose `klc_dir` entry is a string; the result
/// is a function of the text alone.
pub uninterp spec fn klc_dir_of(s: Seq<char>) -> Option<Seq<char>>;

/// Relies on `serde_json::from_str`, `serde_json::Value::get` and
/// `serde_json::Value::as_str`: parses the configuration text and
/// takes the `klc_dir` entry when it is a string, deterministically in
/// the text.
#[verifier::external_body]
fn config_klc_dir(s: &str) -> (r: Option<String>)
    ensures
        match r {
            Some(d) => klc_dir_of(s@) == Some(d@),
            None => klc_dir_of(s@) is None,
        },
{
    serde_json::from_str::<serde_json::Value>(s).ok().and_then(
        |v| v.get("klc_dir").and_then(|k| k.as_str().map(|d| d.to_owned())),
    )
}

/// The settings a configuration text denotes: the linter directory it
/// names, or the defaults when there is no text to read.
pub fn settings_from_text(data: Option<&str>) -> (r: Settings)
    ensures
        match data {
            Some(s) => r@.klc_dir == klc_dir_of(s@),
            None => r@.klc_dir is None,
        },
{
    match data {
        Some(s) => Settings { klc_dir: config_klc_dir(s) },
        None => Settings::default(),
    }
}

} // verus!
