//! The player's settings and where they live on disk.
use vstd::prelude::*;
use crate::color::{name_of_color, Color};

verus! {

/// Settings for games against other players.
pub struct MultiplayerOptions {
    /// The name other players see.
    pub username: String,
    /// The colour other players see, by name. A player who names none has the unknown
    /// colour, by the name it is written as.
    pub color: String,
}

/// Settings for games alone.
pub struct GeneralOptions {
    /// The directory that holds the word lists.
    pub wordlist_directory: String,
    /// Whether definitions are shown beside the words.
    pub definitions: bool,
    /// Whether quotes are kept once fetched.
    pub cache_quotes: bool,
}

/// All settings of a player.
pub struct Config {
    pub multiplayer: MultiplayerOptions,
    pub general: GeneralOptions,
}

/// The settings as plain values.
pub struct ConfigView {
    pub username: Seq<char>,
    pub color: Seq<char>,
    pub wordlist_directory: Seq<char>,
    pub definitions: bool,
    pub cache_quotes: bool,
}

impl View for Config {
    type V = ConfigView;

    open spec fn view(&self) -> ConfigView {
        ConfigView {
            username: self.multiplayer.username@,
            color: self.multiplayer.color@,
            wordlist_directory: self.general.wordlist_directory@,
            definitions: self.general.definitions,
            cache_quotes: self.general.cache_quotes,
        }
    }
}

/// The directory under the home directory where the game keeps its data.
pub open spec fn data_dir_of(home: Seq<char>) -> Seq<char> {
    home + "/.local/share/basedtyper"@
}

/// The default word list directory under the home directory.
pub open spec fn wordlist_dir_of(home: Seq<char>) -> Seq<char> {
    data_dir_of(home) + "/wordlists"@
}

/// The settings file under the home directory.
pub open spec fn config_file_of(home: Seq<char>) -> Seq<char> {
    home + "/.config/basedtyper/config.toml"@
}

/// The settings a player has who wrote none, for a given home directory.
pub open spec fn default_config_of(home: Seq<char>) -> ConfigView {
    ConfigView {
        username: "anonymous"@,
        color: name_of_color(Color::Unknown),
        wordlist_directory: wordlist_dir_of(home),
        definitions: true,
        cache_quotes: false,
    }
}

/// The directory under `home` where the game keeps its data.
pub fn data_dir(home: &str) -> (d: String)
    ensures
        d@ == data_dir_of(home@),
{
    home.to_owned().concat("/.local/share/basedtyper")
}

/// The default word list directory under `home`.
pub fn wordlist_dir(home: &str) -> (d: String)
    ensures
        d@ == wordlist_dir_of(home@),
{
    data_dir(home).concat("/wordlists")
}

/// The settings file under `home`.
pub fn config_file(home: &str) -> (p: String)
    ensures
        p@ == config_file_of(home@),
{
    home.to_owned().concat("/.config/basedtyper/config.toml")
}

impl Config {
    /// The settings from the outcome of reading the settings file under `home`: the
    /// error where the file could not be read; where it was read, the settings it holds, or
    /// the default settings where they could not be parsed (`None`).
    pub fn new(read: Result<Option<Config>, String>, home: &str) -> (r: Result<Config, String>)
        ensures
            read matches Err(e) ==> r matches Err(e2) && e2@ == e@,
            read matches Ok(Some(c)) ==> r matches Ok(c2) && c2@ == c@,
            read matches Ok(None) ==> r matches Ok(c2) && c2@ == default_config_of(home@),
    {
        match read {
            Err(e) => Err(e),
            Ok(Some(c)) => Ok(c),
            Ok(None) => Ok(Config::default(home)),
        }
    }

    /// The settings of a player who wrote none: anonymous, of the unknown colour,
    /// definitions shown, word lists in the game's data directory under `home`.
    pub fn default(home: &str) -> (c: Config)
        ensures
            c@ == default_config_of(home@),
    {
        Config {
            multiplayer: MultiplayerOptions {
                username: "anonymous".to_owned(),
                color: Color::Unknown.to_string(),
            },
            general: GeneralOptions {
                wordlist_directory: wordlist_dir(home),
                definitions: true,
                cache_quotes: false,
            },
        }
    }
}

} // verus!
