//! The user's configuration file, and where the launcher looks for it.
use crate::text::{starts_with, starts_with_char};
use vstd::prelude::*;

verus! {

/// Settings read from `config.toml`.
pub struct Config {
    /// Set the GTK base theme to light. Default is false.
    pub light: bool,
}

impl Default for Config {
    fn default() -> (c: Self)
        ensures
            !c.light,
    {
        Config { light: false }
    }
}

impl Config {
    /// Whether the application asks GTK for its dark theme: unless the light theme
    /// is configured.
    pub fn prefer_dark_theme(&self) -> (b: bool)
        ensures
            b == !self.light,
    {
        !self.light
    }
}

/// `base` joined with `name` as `Path::join` does it on Unix: an absolute `name`
/// replaces `base`; otherwise a `/` goes between them unless `base` is empty or
/// already ends with one.
pub open spec fn path_join(base: Seq<char>, name: Seq<char>) -> Seq<char> {
    if starts_with(name, '/') {
        name
    } else if base.len() == 0 || base.last() == '/' {
        base + name
    } else {
        base + seq!['/'] + name
    }
}

/// Joins a path and a name.
pub fn join_path(base: &str, name: &str) -> (r: String)
    ensures
        r@ == path_join(base@, name@),
{
    if starts_with_char(name, '/') {
        return name.to_owned();
    }
    let n = base.unicode_len();
    let mut r = base.to_owned();
    if !(n == 0 || base.get_char(n - 1) == '/') {
        r.append("/");
        proof {
            reveal_strlit("/");
        }
    }
    r.append(name);
    r
}

/// The directory of the user's configuration: `$XDG_CONFIG_HOME` where it is set,
/// else `$HOME/.config`, else none.
pub open spec fn config_home_of(xdg_config_home: Option<Seq<char>>, home: Option<Seq<char>>) -> Option<
    Seq<char>,
> {
    match xdg_config_home {
        Some(x) => Some(x),
        None => match home {
            Some(h) => Some(path_join(h, ".config"@)),
            None => None,
        },
    }
}

/// The directory of the user's configuration, from the two environment variables.
pub fn config_home(xdg_config_home: Option<String>, home: Option<String>) -> (r: Option<String>)
    ensures
        r.deep_view() == config_home_of(xdg_config_home.deep_view(), home.deep_view()),
{
    match xdg_config_home {
        Some(x) => Some(x),
        None => match home {
            Some(h) => Some(join_path(h.as_str(), ".config")),
            None => None,
        },
    }
}

/// Where the launcher's file `file_name` is looked for by default: in the `nemu`
/// directory of the configuration directory.
pub open spec fn nemu_file_of(config_home: Seq<char>, file_name: Seq<char>) -> Seq<char> {
    path_join(path_join(config_home, "nemu"@), file_name)
}

/// The default path of a file of the launcher (`config.toml`, `style.css`).
pub fn nemu_file(config_home: &str, file_name: &str) -> (r: String)
    ensures
        r@ == nemu_file_of(config_home@, file_name@),
{
    let dir = join_path(config_home, "nemu");
    join_path(dir.as_str(), file_name)
}

} // verus!
