//! The options of a run, and how they are read from the book's settings.

use crate::error::QuizError;
use vstd::prelude::*;

verus! {

/// The key of the option that names where quiz results are logged.
pub open spec fn log_endpoint_key() -> Seq<char> {
    "log-endpoint"@
}

/// The key of the option that asks for quizzes to fill the screen.
pub open spec fn fullscreen_key() -> Seq<char> {
    "fullscreen"@
}

/// The value of one option, as far as the options of a run are concerned.
#[derive(Debug, PartialEq, Eq)]
pub enum Setting {
    /// A string.
    Text(String),
    /// A boolean.
    Flag(bool),
    /// A value of any other kind.
    Other,
}

/// What a `Setting` holds.
pub enum SettingView {
    Text(Seq<char>),
    Flag(bool),
    Other,
}

impl View for Setting {
    type V = SettingView;

    open spec fn view(&self) -> SettingView {
        match self {
            Setting::Text(text) => SettingView::Text(text@),
            Setting::Flag(flag) => SettingView::Flag(*flag),
            Setting::Other => SettingView::Other,
        }
    }
}

/// The table type of the `toml` crate, which holds the settings of a book.
#[verifier::external_type_specification]
#[verifier::external_body]
#[verifier::reject_recursive_types(K)]
#[verifier::reject_recursive_types(V)]
pub struct ExTomlMap<K, V>(toml::map::Map<K, V>);

/// The entries of a table: each key with the setting that its value stands
/// for.
pub uninterp spec fn table_settings(table: toml::map::Map<String, toml::Value>) -> Map<
    Seq<char>,
    SettingView,
>;

/// `toml::map::Map::get`: the value that the table holds under `key`, if it
/// holds one. A string is handed out as `Text`, a boolean as `Flag` and
/// every other value as `Other`.
#[verifier::external_body]
fn table_get(table: &toml::map::Map<String, toml::Value>, key: &str) -> (setting: Option<Setting>)
    ensures
        match setting {
            Some(found) => table_settings(*table).contains_key(key@) && table_settings(
                *table,
            )[key@] == found@,
            None => !table_settings(*table).contains_key(key@),
        },
{
    match table.get(key) {
        Some(toml::Value::String(text)) => Some(Setting::Text(text.clone())),
        Some(toml::Value::Boolean(flag)) => Some(Setting::Flag(*flag)),
        Some(_) => Some(Setting::Other),
        None => None,
    }
}

/// The setting that a table holds under `key`, if it holds one.
pub open spec fn setting_at(
    table: toml::map::Map<String, toml::Value>,
    key: Seq<char>,
) -> Option<SettingView> {
    if table_settings(table).contains_key(key) {
        Some(table_settings(table)[key])
    } else {
        None
    }
}

/// The options of a run: where results are logged, if anywhere, and the
/// fullscreen option, if it was given.
#[derive(Debug, PartialEq, Eq)]
pub struct QuizConfig {
    log_endpoint: Option<String>,
    fullscreen: Option<bool>,
}

/// What a `QuizConfig` holds.
pub struct QuizConfigView {
    pub log_endpoint: Option<Seq<char>>,
    pub fullscreen: Option<bool>,
}

impl View for QuizConfig {
    type V = QuizConfigView;

    closed spec fn view(&self) -> QuizConfigView {
        QuizConfigView {
            log_endpoint: match self.log_endpoint {
                Some(endpoint) => Some(endpoint@),
                None => None,
            },
            fullscreen: self.fullscreen,
        }
    }
}

/// The options that two settings stand for, or the key of the first one
/// that is of the wrong kind: the endpoint has to be a string and the
/// fullscreen option a boolean. An option that was not given is left out.
pub open spec fn resolved_options(
    log_endpoint: Option<SettingView>,
    fullscreen: Option<SettingView>,
) -> Result<QuizConfigView, Seq<char>> {
    match (log_endpoint, fullscreen) {
        (Some(SettingView::Flag(_)), _) | (Some(SettingView::Other), _) => Err(log_endpoint_key()),
        (_, Some(SettingView::Text(_))) | (_, Some(SettingView::Other)) => Err(fullscreen_key()),
        (Some(SettingView::Text(endpoint)), Some(SettingView::Flag(flag))) => Ok(
            QuizConfigView { log_endpoint: Some(endpoint), fullscreen: Some(flag) },
        ),
        (Some(SettingView::Text(endpoint)), None) => Ok(
            QuizConfigView { log_endpoint: Some(endpoint), fullscreen: None },
        ),
        (None, Some(SettingView::Flag(flag))) => Ok(
            QuizConfigView { log_endpoint: None, fullscreen: Some(flag) },
        ),
        (None, None) => Ok(QuizConfigView { log_endpoint: None, fullscreen: None }),
    }
}

/// Whether `result` is what `expected` asks for: the options, or a
/// configuration error that names the key.
pub open spec fn is_resolution(
    result: Result<QuizConfig, QuizError>,
    expected: Result<QuizConfigView, Seq<char>>,
) -> bool {
    match expected {
        Ok(options) => result matches Ok(config) && config@ == options,
        Err(key) => result matches Err(QuizError::Config { key: named }) && named@ == key,
    }
}

impl QuizConfig {
    /// The options as given.
    pub fn new(log_endpoint: Option<String>, fullscreen: Option<bool>) -> (config: Self)
        ensures
            config@.log_endpoint == match log_endpoint {
                Some(endpoint) => Some(endpoint@),
                None => None,
            },
            config@.fullscreen == fullscreen,
    {
        QuizConfig { log_endpoint, fullscreen }
    }

    /// Reads the options from the two settings that may carry them. A
    /// setting of the wrong kind is an error that names its key, the
    /// endpoint's before the fullscreen option's.
    pub fn resolve(log_endpoint: Option<Setting>, fullscreen: Option<Setting>) -> (result: Result<
        Self,
        QuizError,
    >)
        ensures
            is_resolution(
                result,
                resolved_options(
                    match log_endpoint {
                        Some(setting) => Some(setting@),
                        None => None,
                    },
                    match fullscreen {
                        Some(setting) => Some(setting@),
                        None => None,
                    },
                ),
            ),
    {
        let endpoint = match log_endpoint {
            Some(Setting::Text(text)) => Some(text),
            Some(_) => {
                return Err(QuizError::Config { key: "log-endpoint".to_owned() });
            },
            None => None,
        };
        let flag = match fullscreen {
            Some(Setting::Flag(flag)) => Some(flag),
            Some(_) => {
                return Err(QuizError::Config { key: "fullscreen".to_owned() });
            },
            None => None,
        };
        Ok(QuizConfig { log_endpoint: endpoint, fullscreen: flag })
    }

    /// Reads the options from the table of settings: the endpoint from the
    /// key `log-endpoint`, the fullscreen option from the key `fullscreen`.
    pub fn from_table(table: &toml::map::Map<String, toml::Value>) -> (result: Result<
        Self,
        QuizError,
    >)
        ensures
            is_resolution(
                result,
                resolved_options(
                    setting_at(*table, log_endpoint_key()),
                    setting_at(*table, fullscreen_key()),
                ),
            ),
    {
        let log_endpoint = table_get(table, "log-endpoint");
        let fullscreen = table_get(table, "fullscreen");
        Self::resolve(log_endpoint, fullscreen)
    }

    /// Where results are logged, if anywhere.
    pub fn log_endpoint(&self) -> (endpoint: Option<&String>)
        ensures
            match endpoint {
                Some(text) => self@.log_endpoint == Some(text@),
                None => self@.log_endpoint is None,
            },
    {
        self.log_endpoint.as_ref()
    }

    /// The fullscreen option, if it was given.
    pub fn fullscreen(&self) -> (flag: Option<bool>)
        ensures
            flag == self@.fullscreen,
    {
        self.fullscreen
    }
}

} // verus!
