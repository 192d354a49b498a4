//! The configuration that the application starts from.

use vstd::prelude::*;
use vstd::string::*;
use crate::json::optional_text;

verus! {

#[derive(Debug)]
pub struct DatabaseConfig {
    pub url: Option<String>,
}

#[derive(Debug)]
pub struct ServerConfig {
    pub secret: String,
}

/// The directory of the user's configurations: `XDG_CONFIG_HOME` where it
/// is set, else `.config` in the home directory; none where neither is
/// known.
pub open spec fn config_home(xdg: Option<Seq<char>>, home: Option<Seq<char>>) -> Option<
    Seq<char>,
> {
    match xdg {
        Some(dir) => Some(dir),
        None => match home {
            Some(dir) => Some(dir + "/.config"@),
            None => None,
        },
    }
}

/// The URL of the database file below a directory of configurations.
pub open spec fn default_database_url(config_dir: Seq<char>) -> Seq<char> {
    "sqlite://"@ + config_dir + "/dmn/db.sqlite"@
}

/// The URL of the database: the configured one, else the file below the
/// directory of configurations; none where neither is known.
pub open spec fn database_url_of(
    url: Option<Seq<char>>,
    xdg: Option<Seq<char>>,
    home: Option<Seq<char>>,
) -> Option<Seq<char>> {
    match url {
        Some(u) => Some(u),
        None => match config_home(xdg, home) {
            Some(dir) => Some(default_database_url(dir)),
            None => None,
        },
    }
}

impl DatabaseConfig {
    /// The URL of the database, given what the environment says of
    /// `XDG_CONFIG_HOME` and of `HOME`.
    pub fn database_url(&self, xdg: &Option<String>, home: &Option<String>) -> (r: Option<String>)
        ensures
            optional_text(r) == database_url_of(
                optional_text(self.url),
                optional_text(*xdg),
                optional_text(*home),
            ),
    {
        match &self.url {
            Some(url) => Some(url.clone()),
            None => {
                let dir = match xdg {
                    Some(dir) => dir.clone(),
                    None => match home {
                        Some(dir) => dir.clone().concat("/.config"),
                        None => {
                            return None;
                        },
                    },
                };
                let mut out = "sqlite://".to_owned();
                out.append(dir.as_str());
                out.append("/dmn/db.sqlite");
                Some(out)
            },
        }
    }
}

} // verus!
