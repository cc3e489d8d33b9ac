//! The application configuration: where the project document lives.
//! The configuration document, when present, holds a single entry,
//! `data_dir = "..."`; its absence falls back to the platform default.

use vstd::prelude::*;
use crate::document::{parse_string, chars_of, string_of, has_prefix_at, parse_string_at};

verus! {

/// The resolved configuration.
#[derive(Debug)]
pub struct Config {
    pub data_dir: String,
}

/// What can go wrong while resolving the configuration.  Reading the
/// file and asking the platform for directories is the caller's
/// business; it wraps those failures in `IOError` and `NoPath`.
#[derive(Debug, PartialEq)]
pub enum ConfigError {
    IOError(String),
    NoPath,
    DeserializationError(String),
}

/// The opening of the configuration document's single entry.
pub open spec fn config_header() -> Seq<char> {
    "data_dir = \""@
}

/// The data directory a configuration document names, or `None` for
/// any malformation.  A present document must hold exactly one
/// `data_dir = "..."` entry and nothing else: a deliberate narrowing to
/// the canonical layout, like the project document's.
pub open spec fn parse_config(s: Seq<char>) -> Option<Seq<char>> {
    if s.len() < config_header().len() || s.take(config_header().len() as int)
        != config_header() {
        None
    } else {
        match parse_string(s.skip(config_header().len() as int)) {
            None => None,
            Some((path, rest)) => if rest == seq!['\n'] {
                Some(path)
            } else {
                None
            },
        }
    }
}

impl Config {
    /// Reads the configuration document: the data directory it names,
    /// or a deserialization error exactly when the document is
    /// malformed.
    pub fn parse(document: &str) -> (r: Result<Config, ConfigError>)
        ensures
            match parse_config(document@) {
                Some(p) => r matches Ok(c) && c.data_dir@ == p,
                None => r matches Err(ConfigError::DeserializationError(m)) && m@
                    == "malformed configuration document"@,
            },
    {
        let ghost s = document@;
        let chars = chars_of(document);
        let header = chars_of("data_dir = \"");
        proof {
            assert(chars@.skip(0) =~= chars@);
        }
        if !has_prefix_at(&chars, 0, &header) {
            return Err(
                ConfigError::DeserializationError("malformed configuration document".to_owned()),
            );
        }
        proof {
            assert(s.take(config_header().len() as int) =~= s.skip(0).take(
                config_header().len() as int,
            ));
        }
        let pos2 = header.len();
        proof {
            assert(s.skip(pos2 as int) == s.skip(config_header().len() as int));
        }
        match parse_string_at(&chars, pos2) {
            None => Err(
                ConfigError::DeserializationError("malformed configuration document".to_owned()),
            ),
            Some((path, end)) => {
                let ghost rest = s.skip(end as int);
                let n = chars.len();
                if end < n && n - end == 1 {
                    proof {
                        assert(rest[0] == s[end as int]);
                    }
                    if chars[end] == '\n' {
                        proof {
                            assert(rest =~= seq!['\n']);
                        }
                        Ok(Config { data_dir: string_of(&path) })
                    } else {
                        proof {
                            assert(rest != seq!['\n']);
                        }
                        Err(
                            ConfigError::DeserializationError(
                                "malformed configuration document".to_owned(),
                            ),
                        )
                    }
                } else {
                    proof {
                        assert(rest.len() != 1);
                        assert(rest != seq!['\n']);
                    }
                    Err(
                        ConfigError::DeserializationError(
                            "malformed configuration document".to_owned(),
                        ),
                    )
                }
            },
        }
    }

    /// The configuration a present document names, or the platform
    /// default data directory when none was found.
    pub fn from_document(document: Option<&str>, default_data_dir: String) -> (r: Result<
        Config,
        ConfigError,
    >)
        ensures
            match document {
                None => r matches Ok(c) && c.data_dir@ == default_data_dir@,
                Some(doc) => match parse_config(doc@) {
                    Some(p) => r matches Ok(c) && c.data_dir@ == p,
                    None => r matches Err(ConfigError::DeserializationError(m)) && m@
                        == "malformed configuration document"@,
                },
            },
    {
        match document {
            None => Ok(Config { data_dir: default_data_dir }),
            Some(doc) => Self::parse(doc),
        }
    }
}

impl ConfigError {
    /// A human-readable account of the error, as the shell reports it.
    pub fn message(&self) -> (r: String)
        ensures
            r@ == match self {
                ConfigError::IOError(m) => "failed to read config ("@ + m@ + ")"@,
                ConfigError::NoPath => "failed to get config directory path"@,
                ConfigError::DeserializationError(m) => "failed to deserialize config ("@ + m@
                    + ")"@,
            },
    {
        match self {
            ConfigError::IOError(m) => {
                let mut v = chars_of("failed to read config (");
                let mut t = chars_of(m.as_str());
                v.append(&mut t);
                let mut c = chars_of(")");
                v.append(&mut c);
                string_of(&v)
            },
            ConfigError::NoPath => {
                let v = chars_of("failed to get config directory path");
                string_of(&v)
            },
            ConfigError::DeserializationError(m) => {
                let mut v = chars_of("failed to deserialize config (");
                let mut t = chars_of(m.as_str());
                v.append(&mut t);
                let mut c = chars_of(")");
                v.append(&mut c);
                string_of(&v)
            },
        }
    }
}

} // verus!
