//! Where the config file lives: an explicit path, or the per-user config
//! directory resolved from the environment.
use crate::errors::{error_of, Error, ErrorView};
use crate::text::{cat, owned};
use vstd::prelude::*;

verus! {

/// The config file name joined under the resolved directory.
pub const FILE_NAME: &'static str = "orksorksorks.toml";

/// How the config file path was resolved.
#[derive(Clone, Copy, Debug, PartialEq, Eq, Structural)]
pub enum ConfigPathSource {
    /// Given with `--config <path>`.
    ExplicitFlag,
    /// From the `XDG_CONFIG_HOME` environment variable.
    XdgConfigHome,
    /// From `$HOME/.config`.
    HomeDotConfig,
    /// From `%APPDATA%` (Windows).
    AppData,
}

/// The phrase that names a resolution source in messages.
pub open spec fn source_phrase(s: ConfigPathSource) -> Seq<char> {
    match s {
        ConfigPathSource::ExplicitFlag => "specified via --config"@,
        ConfigPathSource::XdgConfigHome => "resolved from XDG_CONFIG_HOME"@,
        ConfigPathSource::HomeDotConfig => "resolved from HOME/.config"@,
        ConfigPathSource::AppData => "resolved from %APPDATA%"@,
    }
}

impl ConfigPathSource {
    /// The phrase that names this resolution source.
    pub fn to_string(&self) -> (r: String)
        ensures
            r@ == source_phrase(*self),
    {
        match self {
            ConfigPathSource::ExplicitFlag => owned("specified via --config"),
            ConfigPathSource::XdgConfigHome => owned("resolved from XDG_CONFIG_HOME"),
            ConfigPathSource::HomeDotConfig => owned("resolved from HOME/.config"),
            ConfigPathSource::AppData => owned("resolved from %APPDATA%"),
        }
    }
}

/// The environment that config-directory resolution reads.
pub struct ConfigEnv {
    /// `XDG_CONFIG_HOME`, when set.
    pub xdg_config_home: Option<String>,
    /// `HOME`, when set.
    pub home: Option<String>,
    /// `APPDATA`, when set.
    pub app_data: Option<String>,
    /// Whether the program runs on Windows (`APPDATA` is consulted in place
    /// of `HOME`, and `\` also separates path components).
    pub windows: bool,
}

/// The environment as plain values.
pub struct ConfigEnvView {
    pub xdg_config_home: Option<Seq<char>>,
    pub home: Option<Seq<char>>,
    pub app_data: Option<Seq<char>>,
    pub windows: bool,
}

/// The view of an optional string.
pub open spec fn text_opt(o: Option<String>) -> Option<Seq<char>> {
    match o {
        Some(s) => Some(s@),
        None => None,
    }
}

impl View for ConfigEnv {
    type V = ConfigEnvView;

    open spec fn view(&self) -> ConfigEnvView {
        ConfigEnvView {
            xdg_config_home: text_opt(self.xdg_config_home),
            home: text_opt(self.home),
            app_data: text_opt(self.app_data),
            windows: self.windows,
        }
    }
}

impl Default for ConfigEnv {
    /// An environment with nothing set, off Windows.
    fn default() -> (r: ConfigEnv)
        ensures
            r@.xdg_config_home is None,
            r@.home is None,
            r@.app_data is None,
            !r@.windows,
    {
        ConfigEnv { xdg_config_home: None, home: None, app_data: None, windows: false }
    }
}

/// Whether `c` separates path components.
pub open spec fn is_separator(c: char, windows: bool) -> bool {
    c == '/' || (windows && c == '\\')
}

/// Whether `c` is an ASCII letter.
pub open spec fn is_ascii_letter(c: char) -> bool {
    ('a' <= c && c <= 'z') || ('A' <= c && c <= 'Z')
}

/// Whether `dir` is a Windows drive and nothing else, such as `C:`.
pub open spec fn is_bare_drive(dir: Seq<char>) -> bool {
    dir.len() == 2 && is_ascii_letter(dir[0]) && dir[1] == ':'
}

/// `dir` joined with the relative `name`, as `Path::join` does: a separator
/// is inserted unless `dir` is empty, already ends in one, or (on Windows)
/// is a bare drive such as `C:`, to which `name` is appended directly.
pub open spec fn path_joined(dir: Seq<char>, name: Seq<char>, windows: bool) -> Seq<char> {
    if dir.len() == 0 || is_separator(dir.last(), windows) || (windows && is_bare_drive(dir)) {
        dir + name
    } else {
        dir + seq![if windows { '\\' } else { '/' }] + name
    }
}

/// The message when no config directory can be determined.
pub open spec fn no_dir_message() -> Seq<char> {
    "could not determine a config directory: set XDG_CONFIG_HOME or HOME"@
}

/// The per-user config directory: `XDG_CONFIG_HOME` when it is absolute,
/// else `APPDATA` on Windows or `$HOME/.config` elsewhere.
pub open spec fn config_dir_of(env: ConfigEnvView, xdg_absolute: bool) -> Result<
    (Seq<char>, ConfigPathSource),
    ErrorView,
> {
    if env.xdg_config_home is Some && xdg_absolute {
        Ok((env.xdg_config_home->0, ConfigPathSource::XdgConfigHome))
    } else if env.windows && env.app_data is Some {
        Ok((env.app_data->0, ConfigPathSource::AppData))
    } else if !env.windows && env.home is Some {
        Ok((path_joined(env.home->0, ".config"@, false), ConfigPathSource::HomeDotConfig))
    } else {
        Err(error_of("config-dir"@, no_dir_message()))
    }
}

/// The config file location: the explicit path unchanged, else the config
/// file under the per-user config directory.
pub open spec fn config_path_of(
    explicit: Option<Seq<char>>,
    env: ConfigEnvView,
    xdg_absolute: bool,
) -> Result<(Seq<char>, ConfigPathSource), ErrorView> {
    match explicit {
        Some(p) => Ok((p, ConfigPathSource::ExplicitFlag)),
        None => match config_dir_of(env, xdg_absolute) {
            Ok((dir, source)) => Ok((path_joined(dir, FILE_NAME@, env.windows), source)),
            Err(e) => Err(e),
        },
    }
}

/// The view of an optional string slice.
pub open spec fn str_opt(o: Option<&str>) -> Option<Seq<char>> {
    match o {
        Some(p) => Some(p@),
        None => None,
    }
}

/// The view of a resolution result.
pub open spec fn location_view(r: Result<(String, ConfigPathSource), Error>) -> Result<
    (Seq<char>, ConfigPathSource),
    ErrorView,
> {
    match r {
        Ok((p, s)) => Ok((p@, s)),
        Err(e) => Err(e@),
    }
}

/// `Path::new(p).is_absolute()`. On Unix an absolute path starts with `/`;
/// on Windows it starts with a prefix (`C:`, `\\server\share`, ...) and a
/// root. Which holds depends on the platform the program was built for, so
/// only what holds on every platform is stated: an absolute path starts
/// with a separator or has a drive colon second.
#[verifier::external_body]
pub(crate) fn path_is_absolute(p: &str) -> (r: bool)
    ensures
        r ==> p@.len() > 0 && (p@[0] == '/' || p@[0] == '\\' || (p@.len() >= 2 && p@[1]
            == ':')),
{
    std::path::Path::new(p).is_absolute()
}

/// Whether `c` is an ASCII letter.
fn ascii_letter(c: char) -> (r: bool)
    ensures
        r == is_ascii_letter(c),
{
    ('a' <= c && c <= 'z') || ('A' <= c && c <= 'Z')
}

/// Whether `dir` is a bare Windows drive, such as `C:`.
fn bare_drive(dir: &str) -> (r: bool)
    ensures
        r == is_bare_drive(dir@),
{
    dir.unicode_len() == 2 && ascii_letter(dir.get_char(0)) && dir.get_char(1) == ':'
}

/// `dir` joined with `name`.
pub fn join_path(dir: &str, name: &str, windows: bool) -> (r: String)
    ensures
        r@ == path_joined(dir@, name@, windows),
{
    let n = dir.unicode_len();
    if n == 0 {
        return owned(name);
    }
    let last = dir.get_char(n - 1);
    if last == '/' || (windows && last == '\\') || (windows && bare_drive(dir)) {
        cat(dir, name)
    } else {
        let sep = if windows { "\\" } else { "/" };
        proof {
            reveal_strlit("\\");
            reveal_strlit("/");
        }
        let mut r = cat(dir, sep);
        r.append(name);
        assert(r@ =~= path_joined(dir@, name@, windows));
        r
    }
}

/// The per-user config directory, given whether `XDG_CONFIG_HOME` is an
/// absolute path.
pub fn config_dir_with(env: &ConfigEnv, xdg_absolute: bool) -> (r: Result<
    (String, ConfigPathSource),
    Error,
>)
    ensures
        location_view(r) == config_dir_of(env@, xdg_absolute),
{
    if xdg_absolute {
        if let Some(x) = &env.xdg_config_home {
            return Ok((x.clone(), ConfigPathSource::XdgConfigHome));
        }
    }
    if env.windows {
        if let Some(a) = &env.app_data {
            return Ok((a.clone(), ConfigPathSource::AppData));
        }
    } else if let Some(h) = &env.home {
        return Ok((join_path(h.as_str(), ".config", false), ConfigPathSource::HomeDotConfig));
    }
    Err(
        Error::new(
            "config-dir",
            "could not determine a config directory: set XDG_CONFIG_HOME or HOME",
        ),
    )
}

/// The config file location, given whether `XDG_CONFIG_HOME` is an
/// absolute path.
pub fn config_file_path_with(explicit: Option<&str>, env: &ConfigEnv, xdg_absolute: bool) -> (r:
    Result<(String, ConfigPathSource), Error>)
    ensures
        location_view(r) == config_path_of(
            str_opt(explicit),
            env@,
            xdg_absolute,
        ),
{
    match explicit {
        Some(p) => Ok((owned(p), ConfigPathSource::ExplicitFlag)),
        None => match config_dir_with(env, xdg_absolute) {
            Ok((dir, source)) => Ok((join_path(dir.as_str(), FILE_NAME, env.windows), source)),
            Err(e) => Err(e),
        },
    }
}

/// Resolve the config file location: `Some(path)` is used unchanged;
/// `None` falls back to `<config dir>/orksorksorks.toml`.
pub fn config_file_path(explicit: Option<&str>, env: &ConfigEnv) -> (r: Result<
    (String, ConfigPathSource),
    Error,
>)
    ensures
        location_view(r) == config_path_of(str_opt(explicit), env@, true) || location_view(r)
            == config_path_of(str_opt(explicit), env@, false),
        explicit matches Some(p) ==> location_view(r) == Ok::<_, ErrorView>(
            (p@, ConfigPathSource::ExplicitFlag),
        ),
        env@.xdg_config_home matches Some(x) && (x.len() == 0 || (x[0] != '/' && x[0] != '\\'
            && !(x.len() >= 2 && x[1] == ':'))) ==> location_view(r) == config_path_of(
            str_opt(explicit),
            env@,
            false,
        ),
{
    let xdg_absolute = match &env.xdg_config_home {
        Some(x) => path_is_absolute(x.as_str()),
        None => false,
    };
    config_file_path_with(explicit, env, xdg_absolute)
}

} // verus!
