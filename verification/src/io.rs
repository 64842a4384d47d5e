//! The program's settings: the configuration (where to download and how to
//! name files) and the login used for the API.

use vstd::prelude::*;

use crate::text::{str_eq, str_to_lowercase, string_from_str, unicode_lowercase};

verus! {

/// The file naming conventions a configuration may ask for: by MD5 hash or
/// by post id.
pub open spec fn known_convention(c: Seq<char>) -> bool {
    c == "md5"@ || c == "id"@
}

/// Config that is used to do general setup.
#[derive(Debug)]
pub struct Config {
    /// The location of the download directory.
    download_directory: String,
    /// The file naming convention (`md5` or `id`).
    naming_convention: String,
}

/// The model of a [Config].
pub struct ConfigView {
    pub download_directory: Seq<char>,
    pub naming_convention: Seq<char>,
}

impl View for Config {
    type V = ConfigView;

    closed spec fn view(&self) -> ConfigView {
        ConfigView {
            download_directory: self.download_directory@,
            naming_convention: self.naming_convention@,
        }
    }
}

/// Why a configuration was refused.
#[derive(Debug)]
pub enum ConfigError {
    /// The naming convention, lowercased, is neither `md5` nor `id`.
    UnknownNamingConvention(String),
}

impl Config {
    /// The naming convention is one the downloader knows.
    #[verifier::type_invariant]
    closed spec fn convention_known(&self) -> bool {
        known_convention(self.naming_convention@)
    }

    /// The configuration read from the config file: the naming convention is
    /// lowercased, and only `md5` and `id` are accepted.
    pub fn from_parts(download_directory: String, naming_convention: String) -> (r: Result<Self, ConfigError>)
        ensures
            known_convention(unicode_lowercase(naming_convention@)) <==> r is Ok,
            r matches Ok(c) ==> c@ == (ConfigView {
                download_directory: download_directory@,
                naming_convention: unicode_lowercase(naming_convention@),
            }),
            r matches Err(ConfigError::UnknownNamingConvention(n)) ==> n@ == unicode_lowercase(
                naming_convention@,
            ),
    {
        let lower = str_to_lowercase(naming_convention.as_str());
        if str_eq(lower.as_str(), "md5") || str_eq(lower.as_str(), "id") {
            Ok(Config { download_directory, naming_convention: lower })
        } else {
            Err(ConfigError::UnknownNamingConvention(lower))
        }
    }

    /// A configuration equal to this one.
    pub fn duplicate(&self) -> (c: Self)
        ensures
            c@ == self@,
    {
        proof {
            use_type_invariant(self);
        }
        Config {
            download_directory: string_from_str(self.download_directory.as_str()),
            naming_convention: string_from_str(self.naming_convention.as_str()),
        }
    }

    /// The location of the download directory.
    pub fn download_directory(&self) -> (d: &str)
        ensures
            d@ == self@.download_directory,
    {
        self.download_directory.as_str()
    }

    /// The file naming convention: `md5` or `id`.
    pub fn naming_convention(&self) -> (c: &str)
        ensures
            c@ == self@.naming_convention,
            known_convention(c@),
    {
        proof {
            use_type_invariant(self);
        }
        self.naming_convention.as_str()
    }
}

impl Default for Config {
    /// The default configuration: download into `downloads/` and name files
    /// by their MD5 hash.
    fn default() -> (c: Self)
        ensures
            c@ == (ConfigView { download_directory: "downloads/"@, naming_convention: "md5"@ }),
    {
        Config { download_directory: string_from_str("downloads/"), naming_convention: string_from_str("md5") }
    }
}

/// `Login` contains all login information for obtaining information about a
/// certain user.
#[derive(Debug)]
pub struct Login {
    /// Username of user.
    username: String,
    /// The password hash (also known as the API key) for the user.
    api_key: String,
    /// Whether or not the user wishes to download their favorites.
    download_favorites: bool,
}

/// The model of a [Login].
pub struct LoginView {
    pub username: Seq<char>,
    pub api_key: Seq<char>,
    pub download_favorites: bool,
}

impl View for Login {
    type V = LoginView;

    closed spec fn view(&self) -> LoginView {
        LoginView {
            username: self.username@,
            api_key: self.api_key@,
            download_favorites: self.download_favorites,
        }
    }
}

impl Login {
    /// The login read from the login file.
    pub fn new(username: String, api_key: String, download_favorites: bool) -> (l: Self)
        ensures
            l@ == (LoginView { username: username@, api_key: api_key@, download_favorites }),
    {
        Login { username, api_key, download_favorites }
    }

    /// Username of user.
    pub fn username(&self) -> (u: &str)
        ensures
            u@ == self@.username,
    {
        self.username.as_str()
    }

    /// The API key of the user.
    pub fn api_key(&self) -> (k: &str)
        ensures
            k@ == self@.api_key,
    {
        self.api_key.as_str()
    }

    /// Whether or not the user wishes to download their favorites.
    pub fn download_favorites(&self) -> (b: bool)
        ensures
            b == self@.download_favorites,
    {
        self.download_favorites
    }

    /// Checks if the username or the API key is empty.
    pub fn is_empty(&self) -> (b: bool)
        ensures
            b == (self@.username.len() == 0 || self@.api_key.len() == 0),
    {
        self.username.as_str().is_empty() || self.api_key.as_str().is_empty()
    }
}

impl Default for Login {
    /// No user, no key, and favorites downloaded once a user is given.
    fn default() -> (l: Self)
        ensures
            l@ == (LoginView { username: Seq::empty(), api_key: Seq::empty(), download_favorites: true }),
    {
        Login { username: String::new(), api_key: String::new(), download_favorites: true }
    }
}

} // verus!
