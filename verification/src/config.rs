//! Settings and where they are looked for.
//!
//! The library reads no file. It names the files that may hold settings; the
//! caller reads those that exist and lets a later one overrule an earlier one.
use crate::text::{in_dir, join_path, string_of, text_of};
use vstd::prelude::*;

verus! {

/// The settings of the client.
#[derive(Debug)]
pub struct Settings {
    /// The address of the server.
    pub server_url: String,
}

/// The files that may hold settings, from the one that is overruled by all
/// others to the one that overrules all others.
#[derive(Debug)]
pub struct ConfigSources {
    /// The file in the user's configuration directory, where the home
    /// directory is known.
    pub global: Option<String>,
    /// The file beside the program, where its directory is known.
    pub beside_binary: Option<String>,
    /// The file in the current directory, as a path relative to it.
    pub local: String,
}

/// The settings file in the configuration directory below `home`.
pub open spec fn global_file(home: Seq<char>) -> Seq<char> {
    in_dir(in_dir(in_dir(home, ".config"@), "hiproc"@), "config.toml"@)
}

/// The settings file beside a program in the directory `dir`, and in the
/// current directory.
pub open spec fn local_file() -> Seq<char> {
    "hiproc.toml"@
}

impl Settings {
    /// The files that may hold settings, given the home directory and the
    /// directory of the program as far as they are known.
    pub fn sources(home: Option<&str>, binary_dir: Option<&str>) -> (r: ConfigSources)
        ensures
            string_of(r.global) == match text_of(home) {
                Some(h) => Some(global_file(h)),
                None => None,
            },
            string_of(r.beside_binary) == match text_of(binary_dir) {
                Some(d) => Some(in_dir(d, local_file())),
                None => None,
            },
            r.local@ == local_file(),
    {
        let global = match home {
            Some(h) => {
                let config = join_path(h, ".config");
                let own = join_path(config.as_str(), "hiproc");
                Some(join_path(own.as_str(), "config.toml"))
            },
            None => None,
        };
        let beside_binary = match binary_dir {
            Some(d) => Some(join_path(d, "hiproc.toml")),
            None => None,
        };
        ConfigSources { global, beside_binary, local: "hiproc.toml".to_owned() }
    }
}

} // verus!
