use vstd::prelude::*;

verus! {

/// Where the application finds its files and how fast it draws.
#[derive(Clone, Debug)]
pub struct GeneralConfig {
    pub path_languages: String,
    pub path_texts: String,
    pub default_language: String,
    pub default_text: String,
    pub path_dir_setting: String,
    pub setting_solo_games_filename: String,
    pub miliseconds_per_frame: u64,
}

impl Default for GeneralConfig {
    fn default() -> (r: Self)
        ensures
            r.path_languages@ == "languages"@,
            r.path_texts@ == "texts"@,
            r.default_language@ == "english_1k.json"@,
            r.default_text@ == "lotr.txt"@,
            r.path_dir_setting@ == "config"@,
            r.setting_solo_games_filename@ == "solo_games_settings.toml"@,
            r.miliseconds_per_frame == 20,
    {
        GeneralConfig {
            path_languages: String::from_str("languages"),
            path_texts: String::from_str("texts"),
            default_language: String::from_str("english_1k.json"),
            default_text: String::from_str("lotr.txt"),
            path_dir_setting: String::from_str("config"),
            setting_solo_games_filename: String::from_str("solo_games_settings.toml"),
            miliseconds_per_frame: 20,
        }
    }
}

/// The path that `std::path::Path::join` makes of a base and a name (the
/// name adjoined to the base with the separator of the platform the program
/// is built for, or the name alone when it is absolute), as a string.
pub uninterp spec fn joined_path(base: Seq<char>, name: Seq<char>) -> Seq<char>;

/// `std::path::Path::join`, read back as a string: a function of the two
/// paths alone, named `joined_path`; what the separator is, is left unsaid,
/// as it is the platform's.
#[verifier::external_body]
fn join_path(base: &str, name: &str) -> (r: String)
    ensures
        r@ == joined_path(base@, name@),
{
    std::path::Path::new(base).join(name).to_string_lossy().into_owned()
}

/// The settings file: the settings directory joined with the file name.
pub fn path_settings(config: &GeneralConfig) -> (r: String)
    ensures
        r@ == joined_path(config.path_dir_setting@, config.setting_solo_games_filename@),
{
    join_path(config.path_dir_setting.as_str(), config.setting_solo_games_filename.as_str())
}

pub fn default_language(config: &GeneralConfig) -> (r: String)
    ensures
        r@ == config.default_language@,
{
    config.default_language.clone()
}

pub fn default_text(config: &GeneralConfig) -> (r: String)
    ensures
        r@ == config.default_text@,
{
    config.default_text.clone()
}

pub fn path_languages(config: &GeneralConfig) -> (r: String)
    ensures
        r@ == config.path_languages@,
{
    config.path_languages.clone()
}

pub fn path_texts(config: &GeneralConfig) -> (r: String)
    ensures
        r@ == config.path_texts@,
{
    config.path_texts.clone()
}

pub fn miliseconds_per_frame(config: &GeneralConfig) -> (r: u64)
    ensures
        r == config.miliseconds_per_frame,
{
    config.miliseconds_per_frame
}

/// The general configuration file: `general_settings.toml` in the
/// `config` folder, joined with the platform's separator.
pub fn path_general_config() -> (r: String)
    ensures
        r@ == joined_path("config"@, "general_settings.toml"@),
{
    join_path("config", "general_settings.toml")
}

} // verus!
