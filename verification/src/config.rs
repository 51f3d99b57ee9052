//! The parts of the editor configuration that the library reads, and where
//! the configuration lives.

use vstd::prelude::*;

use crate::path::{path_join, path_join_of};

verus! {

/// Theme section of the configuration.
#[derive(Debug, Clone)]
pub struct ThemeConfig {
    pub name: String,
    pub path: Option<String>,
}

impl Default for ThemeConfig {
    fn default() -> (c: ThemeConfig)
        ensures
            c.name@ == "dark"@,
            c.path is None,
    {
        ThemeConfig { name: String::from_str("dark"), path: None }
    }
}

/// Keymap section of the configuration.
#[derive(Debug, Clone)]
pub struct KeymapConfig {
    pub mode: String,
    pub custom_path: Option<String>,
}

impl Default for KeymapConfig {
    fn default() -> (c: KeymapConfig)
        ensures
            c.mode@ == "vim"@,
            c.custom_path is None,
    {
        KeymapConfig { mode: String::from_str("vim"), custom_path: None }
    }
}

/// The configuration directory: `kode` under `$XDG_CONFIG_HOME` when it is
/// set, else under `$HOME/.config`, else under `./.config`.
pub open spec fn config_dir_of(xdg_config_home: Option<Seq<char>>, home: Option<Seq<char>>) -> Seq<
    char,
> {
    let base = match xdg_config_home {
        Some(x) => x,
        None => path_join_of(
            match home {
                Some(h) => h,
                None => "."@,
            },
            ".config"@,
        ),
    };
    path_join_of(base, "kode"@)
}

pub open spec fn opt_str_view(o: Option<&str>) -> Option<Seq<char>> {
    match o {
        Some(s) => Some(s@),
        None => None,
    }
}

/// The configuration directory, given the values of `XDG_CONFIG_HOME` and
/// `HOME` (`None` where a variable is unset).
pub fn dirs_or_default(xdg_config_home: Option<&str>, home: Option<&str>) -> (r: String)
    ensures
        r@ == config_dir_of(opt_str_view(xdg_config_home), opt_str_view(home)),
{
    let base = match xdg_config_home {
        Some(x) => String::from_str(x),
        None => {
            let h = match home {
                Some(h) => h,
                None => ".",
            };
            path_join(h, ".config")
        },
    };
    path_join(base.as_str(), "kode")
}

} // verus!
