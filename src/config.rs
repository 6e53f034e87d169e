//! Errors met while reading an album's configuration.

use vstd::prelude::*;

use crate::album_tags::{has_tracks, AlbumTags};
use crate::text::opt_view;
use crate::value::{parse_document, toml_document};

verus! {

/// Why a configuration could not be resolved.
#[derive(Debug)]
pub enum ConfigError {
    /// No usable value was found for the named key.
    MissingKey(String),
    /// A present value had the wrong shape.
    TypeError(String),
}

impl ConfigError {
    /// The text that describes this error to a user.
    pub open spec fn spec_message(&self) -> Seq<char> {
        match self {
            ConfigError::MissingKey(k) => "Missing key: "@ + k@,
            ConfigError::TypeError(t) => "Type error: "@ + t@,
        }
    }

    /// Describes this error to a user.
    pub fn to_string(&self) -> (r: String)
        ensures
            r@ == self.spec_message(),
    {
        match self {
            ConfigError::MissingKey(k) => String::from_str("Missing key: ").concat(k.as_str()),
            ConfigError::TypeError(t) => String::from_str("Type error: ").concat(t.as_str()),
        }
    }
}

/// Why the text of a configuration could not be loaded.
#[derive(Debug)]
pub enum LoadError {
    /// The text is not a TOML document.
    Syntax(toml::de::Error),
    /// The document does not describe an album.
    Config(ConfigError),
}

/// Reads an album from the text of its configuration document, resolving a
/// picture path against `working_dir`.
pub fn load_config_from_str(text: &str, working_dir: Option<String>) -> (r: Result<AlbumTags, LoadError>)
    ensures
        toml_document(text@) is None ==> r matches Err(LoadError::Syntax(_)),
        toml_document(text@) matches Some(t) ==> {
            &&& has_tracks(t) ==> (r matches Ok(a) && a.wf() && a.describes(t, opt_view(working_dir)))
            &&& !has_tracks(t) ==> (r matches Err(LoadError::Config(ConfigError::MissingKey(k)))
                && k@ == "tracks"@)
        },
{
    match parse_document(text) {
        Ok(table) => match AlbumTags::from_toml(table, working_dir) {
            Ok(album) => Ok(album),
            Err(e) => Err(LoadError::Config(e)),
        },
        Err(e) => Err(LoadError::Syntax(e)),
    }
}

} // verus!
