//! Where the player looks for music: an explicit override, or the platform's
//! audio directory, or `Music` under the home directory, or the current
//! directory as a last resort.

use vstd::prelude::*;
use vstd::string::StringExecFns;

verus! {

pub struct Config {
    pub music_dir: String,
}

/// Relies on dirs' `audio_dir`: the platform's music directory, if the
/// environment defines one.  Nothing is assumed about the value.
#[verifier::external_body]
fn audio_dir_string() -> (r: Option<String>)
{
    dirs::audio_dir().and_then(|p| p.into_os_string().into_string().ok())
}

/// Relies on dirs' `home_dir`: the user's home directory, if the environment
/// defines one.  Nothing is assumed about the value.
#[verifier::external_body]
fn home_dir_string() -> (r: Option<String>)
{
    dirs::home_dir().and_then(|p| p.into_os_string().into_string().ok())
}

impl Config {
    /// An explicit override wins; otherwise the fallback chain picks the
    /// first directory the environment offers.
    pub fn new(music_dir_override: Option<String>) -> (r: Config)
        ensures
            music_dir_override matches Some(d) ==> r.music_dir@ == d@,
    {
        match music_dir_override {
            Some(d) => Config { music_dir: d },
            None => {
                match audio_dir_string() {
                    Some(d) => Config { music_dir: d },
                    None => {
                        match home_dir_string() {
                            Some(h) => {
                                let mut dir = h;
                                dir.append("/Music");
                                Config { music_dir: dir }
                            },
                            None => Config { music_dir: String::from_str(".") },
                        }
                    },
                }
            },
        }
    }
}

impl Default for Config {
    /// The fallback chain with no override.
    fn default() -> (r: Self)
    {
        Config::new(None)
    }
}

} // verus!
