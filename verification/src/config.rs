//! The credential of a run.

use crate::text::opt_text;
use vstd::prelude::*;
use vstd::string::*;

verus! {

/// What a run is configured with.
#[derive(Debug, Clone)]
pub struct Config {
    pub api_token: String,
}

impl View for Config {
    type V = Seq<char>;

    open spec fn view(&self) -> Seq<char> {
        self.api_token@
    }
}

/// The message for a run without a credential.
pub open spec fn no_token_text() -> Seq<char> {
    "No API token found.\nProvide it via:\n  • --token <TOKEN>\n  • SHORTCUT_API_TOKEN environment variable\n  • ~/.config/bypass/config.yaml  (field: api_token)"@
}

/// The credential that a run uses: the one given on the command line or in
/// the environment, whatever it holds, and else the one of the
/// configuration file, unless that is empty.
pub open spec fn chosen_token(given: Option<Seq<char>>, stored: Option<Seq<char>>) -> Option<
    Seq<char>,
> {
    match given {
        Some(token) => Some(token),
        None => match stored {
            Some(token) => if token.len() > 0 {
                Some(token)
            } else {
                None
            },
            None => None,
        },
    }
}

impl Config {
    /// The configuration of a run. `cli_token` is the credential given on
    /// the command line or in the environment; `file_token` is the one that
    /// the configuration file holds, if there is a file and it can be read.
    pub fn load(cli_token: Option<String>, file_token: Option<String>) -> (r: Result<Config, String>)
        ensures
            match r {
                Ok(config) => chosen_token(
                    opt_text(cli_token),
                    opt_text(file_token),
                ) == Some(config@),
                Err(message) => chosen_token(
                    opt_text(cli_token),
                    opt_text(file_token),
                ) is None && message@ == no_token_text(),
            },
    {
        match cli_token {
            Some(token) => return Ok(Config { api_token: token }),
            None => {},
        }
        match file_token {
            Some(token) => {
                if !token.as_str().is_empty() {
                    return Ok(Config { api_token: token });
                }
            },
            None => {},
        }
        Err(
            "No API token found.\nProvide it via:\n  • --token <TOKEN>\n  • SHORTCUT_API_TOKEN environment variable\n  • ~/.config/bypass/config.yaml  (field: api_token)".to_owned(),
        )
    }
}

} // verus!
