//! Where the credentials come from: the key list file and the configuration
//! file.
//!
//! Nothing here touches the file system. The caller says what it found
//! there, and is told which file to read or to create.

use crate::text::{lines_of, read_lines};
use vstd::prelude::*;

verus! {

/// Why no credentials could be loaded.
#[derive(Debug, Clone, Copy, PartialEq, Eq, Structural)]
pub enum ConfigError {
    /// The key list holds no credential.
    EmptyKeyList,
    /// No configuration file exists at the explicit path, and the home
    /// directory is not known.
    MissingHome,
}

/// The text that stands for a [`ConfigError`] in a report.
pub open spec fn config_error_text(error: ConfigError) -> Seq<char> {
    match error {
        ConfigError::EmptyKeyList => "The key file is empty or not valid"@,
        ConfigError::MissingHome => "environment variable not found"@,
    }
}

impl ConfigError {
    /// The text to report this error with.
    pub fn message(&self) -> (text: String)
        ensures
            text@ == config_error_text(*self),
    {
        match self {
            ConfigError::EmptyKeyList => String::from_str("The key file is empty or not valid"),
            ConfigError::MissingHome => String::from_str("environment variable not found"),
        }
    }
}

/// The configuration: a single credential.
#[derive(Debug, PartialEq, Eq)]
pub struct Config {
    pub key: String,
}

impl Config {
    /// The credentials that this configuration gives: its one key.
    pub fn into_keys(self) -> (keys: Vec<String>)
        ensures
            keys.deep_view() == seq![self.key@],
    {
        let mut keys: Vec<String> = Vec::new();
        keys.push(self.key);
        keys
    }
}

/// Which file the credentials are read from.
#[derive(Debug, PartialEq, Eq)]
pub enum CredentialSource {
    /// The key list at `path`, one credential per line.
    KeyFile { path: String },
    /// The configuration file, at the path `given` where there is one.
    ConfigFile { given: Option<String> },
}

/// Chooses between the two sources of credentials. A key list takes
/// precedence where one is given, and the configuration file is then not
/// used at all.
pub fn credential_source(key_file: Option<String>, config: Option<String>) -> (source:
    CredentialSource)
    ensures
        source == match key_file {
            Some(path) => (CredentialSource::KeyFile { path }),
            None => (CredentialSource::ConfigFile { given: config }),
        },
{
    match key_file {
        Some(path) => CredentialSource::KeyFile { path },
        None => CredentialSource::ConfigFile { given: config },
    }
}

/// Loads the credentials from the bytes of a key list: one for each line,
/// in the order of the file, blank and unreadable lines left out. A list
/// without any credential is an error.
pub fn load_keys(contents: &[u8]) -> (loaded: Result<Vec<String>, ConfigError>)
    ensures
        lines_of(contents@).len() == 0 ==> loaded == Err::<Vec<String>, ConfigError>(
            ConfigError::EmptyKeyList,
        ),
        lines_of(contents@).len() > 0 ==> loaded is Ok && loaded->Ok_0.deep_view() == lines_of(
            contents@,
        ),
{
    let keys = read_lines(contents);
    if keys.len() == 0 {
        Err(ConfigError::EmptyKeyList)
    } else {
        Ok(keys)
    }
}

/// The path at which the configuration file is looked for first: the one
/// that is given, else `config.yaml` in the working directory.
pub open spec fn first_path(path: Option<Seq<char>>) -> Seq<char> {
    match path {
        Some(given) => given,
        None => "config.yaml"@,
    }
}

/// The path of the configuration file below the home directory `home`.
pub open spec fn home_path(home: Seq<char>) -> Seq<char> {
    home + "/.config/rusho/config.yaml"@
}

/// The text of a configuration file that is made where none exists. It
/// holds a placeholder for the credential.
pub open spec fn placeholder_text() -> Seq<char> {
    "key: your_default_shodan_key\n"@
}

/// How to get at the configuration.
#[derive(Debug, PartialEq, Eq)]
pub enum ConfigPlan {
    /// Read the file at `path`.
    Read { path: String },
    /// Make the file at `path` with the contents `text`, and the directories
    /// above it, then read it.
    Create { path: String, text: String },
}

/// A [`ConfigPlan`] as a mathematical value.
pub enum ConfigPlanView {
    Read { path: Seq<char> },
    Create { path: Seq<char>, text: Seq<char> },
}

impl View for ConfigPlan {
    type V = ConfigPlanView;

    open spec fn view(&self) -> ConfigPlanView {
        match self {
            ConfigPlan::Read { path } => ConfigPlanView::Read { path: path@ },
            ConfigPlan::Create { path, text } => ConfigPlanView::Create {
                path: path@,
                text: text@,
            },
        }
    }
}

/// The plan for the configuration file. `path` is the path that was given,
/// if any, and `first_exists` says whether a file exists at
/// [`first_path`]`(path)`. `home` is the home directory, where it is known,
/// and `home_exists` says whether a file exists at [`home_path`]`(home)`.
///
/// A file at the first path is read. Without one, the file below the home
/// directory is read, and made first where it does not exist. Without a
/// home directory there is nothing to fall back on.
pub open spec fn planned_config(
    path: Option<Seq<char>>,
    first_exists: bool,
    home: Option<Seq<char>>,
    home_exists: bool,
) -> Result<ConfigPlanView, ConfigError> {
    if first_exists {
        Ok(ConfigPlanView::Read { path: first_path(path) })
    } else {
        match home {
            None => Err(ConfigError::MissingHome),
            Some(dir) => if home_exists {
                Ok(ConfigPlanView::Read { path: home_path(dir) })
            } else {
                Ok(ConfigPlanView::Create { path: home_path(dir), text: placeholder_text() })
            },
        }
    }
}

/// Gives the path at which the configuration file is looked for first.
pub fn first_config_path(path: Option<String>) -> (first: String)
    ensures
        first@ == first_path(path.deep_view()),
{
    match path {
        Some(given) => given,
        None => String::from_str("config.yaml"),
    }
}

/// Gives the path of the configuration file below the home directory.
pub fn home_config_path(home: &str) -> (path: String)
    ensures
        path@ == home_path(home@),
{
    let mut path = String::from_str(home);
    path.append("/.config/rusho/config.yaml");
    path
}

/// Plans how to get at the configuration, from what the caller found on the
/// file system: see [`planned_config`].
pub fn plan_config(
    path: Option<String>,
    first_exists: bool,
    home: Option<String>,
    home_exists: bool,
) -> (plan: Result<ConfigPlan, ConfigError>)
    ensures
        match planned_config(path.deep_view(), first_exists, home.deep_view(), home_exists) {
            Ok(view) => plan is Ok && plan->Ok_0@ == view,
            Err(error) => plan == Err::<ConfigPlan, ConfigError>(error),
        },
{
    if first_exists {
        Ok(ConfigPlan::Read { path: first_config_path(path) })
    } else {
        match home {
            None => Err(ConfigError::MissingHome),
            Some(dir) => {
                let at = home_config_path(dir.as_str());
                if home_exists {
                    Ok(ConfigPlan::Read { path: at })
                } else {
                    Ok(
                        ConfigPlan::Create {
                            path: at,
                            text: String::from_str("key: your_default_shodan_key\n"),
                        },
                    )
                }
            },
        }
    }
}

} // verus!
