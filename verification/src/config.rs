use vstd::prelude::*;
use vstd::string::StringExecFns;
use crate::text::push_str;

verus! {

/// The name of the configuration file.
pub const CONFIG_FILE_NAME: &'static str = "gitsearcher-ui.toml";

/// The program's settings.
#[derive(Debug, Clone)]
pub struct Config {
    pub executable: String,
    pub extra_args: Vec<String>,
    pub default_path: String,
    pub include_hidden: bool,
}

/// The settings used where the configuration file gives none.
pub open spec fn is_default_config(c: Config) -> bool {
    &&& c.executable@ == "GitSearcher.exe"@
    &&& c.extra_args@.len() == 0
    &&& c.default_path@ == Seq::<char>::empty()
    &&& !c.include_hidden
}

impl Default for Config {
    fn default() -> (c: Self)
        ensures
            is_default_config(c),
    {
        Config {
            executable: String::from_str("GitSearcher.exe"),
            extra_args: Vec::new(),
            default_path: String::new(),
            include_hidden: false,
        }
    }
}

/// What reading the first configuration file that exists gave.
pub enum ConfigRead {
    /// The file was read and parsed.
    Parsed(Config),
    /// The file was read but could not be parsed; the parser's message.
    ParseFailed(String),
    /// The file could not be read; the error's message.
    ReadFailed(String),
}

/// The settings and the error message (if any) that a configuration file
/// read gives: the parsed settings; or the defaults and a message that names
/// the file and the error.
pub open spec fn config_read_result(path: Seq<char>, read: ConfigRead, r: (Config, Option<String>)) -> bool {
    match read {
        ConfigRead::Parsed(c) => r.0 == c && r.1.is_none(),
        ConfigRead::ParseFailed(e) => is_default_config(r.0) && (r.1 matches Some(m) && m@ == "Errore parsing "@
            + path + ": "@ + e@),
        ConfigRead::ReadFailed(e) => is_default_config(r.0) && (r.1 matches Some(m) && m@ == "Errore lettura "@
            + path + ": "@ + e@),
    }
}

/// The settings and the error message (if any) that reading a configuration
/// file gives.
pub fn config_from_read(path: &str, read: ConfigRead) -> (r: (Config, Option<String>))
    ensures
        config_read_result(path@, read, r),
{
    match read {
        ConfigRead::Parsed(c) => (c, None),
        ConfigRead::ParseFailed(e) => {
            let mut m = String::from_str("Errore parsing ");
            push_str(&mut m, path);
            push_str(&mut m, ": ");
            push_str(&mut m, e.as_str());
            (Config::default(), Some(m))
        },
        ConfigRead::ReadFailed(e) => {
            let mut m = String::from_str("Errore lettura ");
            push_str(&mut m, path);
            push_str(&mut m, ": ");
            push_str(&mut m, e.as_str());
            (Config::default(), Some(m))
        },
    }
}

/// What loading the settings gives: with no configuration file, the defaults,
/// no file and no error; otherwise the file (its path and the text that names
/// it) and what reading it gave.
pub open spec fn config_load_result<P>(
    found: Option<(P, String, ConfigRead)>,
    r: (Config, Option<P>, Option<String>),
) -> bool {
    match found {
        None => is_default_config(r.0) && r.1.is_none() && r.2.is_none(),
        Some((path, shown, read)) => r.1 == Some(path) && config_read_result(shown@, read, (r.0, r.2)),
    }
}

/// The settings, the configuration file and the error message (if any), from
/// the first configuration file found (with the text that names it, and what
/// reading it gave), if any.
pub fn load_config_outcome<P>(found: Option<(P, String, ConfigRead)>) -> (r: (Config, Option<P>, Option<String>))
    ensures
        config_load_result(found, r),
{
    match found {
        None => (Config::default(), None, None),
        Some((path, shown, read)) => {
            let (config, error) = config_from_read(shown.as_str(), read);
            (config, Some(path), error)
        },
    }
}

/// Loading the settings gives the defaults whenever it reports an error, and
/// whenever it finds no file; finding no file reports no error.
pub proof fn lemma_config_defaults_on_error<P>(
    found: Option<(P, String, ConfigRead)>,
    r: (Config, Option<P>, Option<String>),
)
    requires
        config_load_result(found, r),
    ensures
        r.2.is_some() ==> r.1.is_some() && is_default_config(r.0),
        r.1.is_none() ==> r.2.is_none() && is_default_config(r.0),
{
}

/// The home folder: the `USERPROFILE` value if set, else the `HOME` value if
/// set, else the working folder ".".
pub fn home_folder(userprofile: Option<String>, home: Option<String>) -> (r: String)
    ensures
        r@ == match (userprofile, home) {
            (Some(u), _) => u@,
            (None, Some(h)) => h@,
            (None, None) => "."@,
        },
{
    match userprofile {
        Some(u) => u,
        None => match home {
            Some(h) => h,
            None => String::from_str("."),
        },
    }
}

} // verus!
