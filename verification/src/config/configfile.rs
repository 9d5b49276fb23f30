//! The configuration of the library: where the system's configuration
//! files are, and how the user manages packages.

use crate::text::{opt, same, to_chars};
use vstd::prelude::*;

verus! {

/// Locations of system configuration files and some user configuration.
#[derive(PartialEq, Eq, Clone, Debug)]
pub struct LibSnowConfig {
    /// Path to the NixOS configuration file. Typically `/etc/nixos/configuration.nix`.
    pub systemconfig: Option<String>,
    /// Path to home-manager configuration file. Typically `~/.config/nixpkgs/home.nix`.
    pub homeconfig: Option<String>,
    /// Path to the NixOS flake file. Typically `/etc/nixos/flake.nix`.
    pub flake: Option<String>,
    /// Which configuration of the flake's `nixosConfigurations` to use. If
    /// not set, NixOS takes the hostname of the system.
    pub host: Option<String>,
    /// How many NixOS generations to keep; zero keeps all.
    pub generations: Option<u32>,
    /// Path to the packages file, where it is not beside a configuration
    /// file.
    pub packages_file: Option<String>,
}

impl Default for LibSnowConfig {
    fn default() -> (c: LibSnowConfig)
        ensures
            c.systemconfig is None,
            c.homeconfig is None,
            c.flake is None,
            c.host is None,
            c.generations is None,
            c.packages_file is None,
    {
        LibSnowConfig {
            systemconfig: None,
            homeconfig: None,
            flake: None,
            host: None,
            generations: None,
            packages_file: None,
        }
    }
}

/// What is missing where the configuration cannot answer.
#[derive(Clone, Copy, Debug, PartialEq, Eq, Structural)]
pub enum ConfigError {
    /// There is neither a user's nor a system's configuration file.
    NoConfigFile,
    /// The configuration names no system configuration file.
    NoSystemConfig,
    /// The configuration names no home configuration file.
    NoHomeConfig,
    /// The configuration names no flake.
    NoFlake,
    /// The flake's path has no parent directory.
    NoParent,
    /// Nothing tells where the packages file is.
    NoPackagesFile,
}

/// Which configuration file is read.
#[derive(Clone, Copy, Debug, PartialEq, Eq, Structural)]
pub enum ConfigFile {
    User,
    System,
}

/// How the user manages packages: with `nix profile`, or with `nix-env`.
#[derive(PartialEq, Eq, Clone, Debug)]
pub enum UserPkgType {
    Profile,
    Env,
}

/// What `Path::parent` makes of a path that is written as text.
pub uninterp spec fn parent_of(path: Seq<char>) -> Option<Seq<char>>;

/// The parent of the path of a file that may not be there.
pub open spec fn parent_dir(file: Option<Seq<char>>) -> Option<Seq<char>> {
    match file {
        Some(f) => parent_of(f),
        None => None,
    }
}

/// `Path::parent`: the path without its last component, if it has one; it
/// is read off the text of the path alone, without a look at the disk.
#[verifier::external_body]
pub(crate) fn parent(path: &str) -> (r: Option<String>)
    ensures
        opt(r) == parent_of(path@),
{
    std::path::Path::new(path).parent().map(|p| p.to_string_lossy().into_owned())
}

/// A text or the error in its place, as plain values.
pub open spec fn text_or(r: Result<String, ConfigError>) -> Result<Seq<char>, ConfigError> {
    match r {
        Ok(s) => Ok(s@),
        Err(e) => Err(e),
    }
}

/// The directory of the flake: the flake's path where that is a directory,
/// else its parent.
pub open spec fn flake_dir_of(
    flake: Option<Seq<char>>,
    is_dir: bool,
    parent: Option<Seq<char>>,
) -> Result<Seq<char>, ConfigError> {
    match flake {
        None => Err(ConfigError::NoFlake),
        Some(f) => if is_dir {
            Ok(f)
        } else {
            match parent {
                Some(p) => Ok(p),
                None => Err(ConfigError::NoParent),
            }
        },
    }
}

/// The directory of a flake, given whether its path is a directory and
/// what the parent of the path is.
pub fn flake_dir(flake: &Option<String>, is_dir: bool, parent: Option<String>) -> (r: Result<
    String,
    ConfigError,
>)
    ensures
        text_or(r) == flake_dir_of(opt(*flake), is_dir, opt(parent)),
{
    match flake {
        None => Err(ConfigError::NoFlake),
        Some(f) => {
            if is_dir {
                Ok(f.clone())
            } else {
                match parent {
                    Some(p) => Ok(p),
                    None => Err(ConfigError::NoParent),
                }
            }
        },
    }
}

impl LibSnowConfig {
    /// The directory of the flake; `is_dir` tells whether the flake's path
    /// is a directory. The path of a directory is the answer itself; of any
    /// other path its parent is, and `NoParent` where it has none. Fails
    /// with `NoFlake` where no flake is configured.
    pub fn get_flake_dir(&self, is_dir: bool) -> (r: Result<String, ConfigError>)
        ensures
            text_or(r) == flake_dir_of(opt(self.flake), is_dir, parent_dir(opt(self.flake))),
    {
        let up = match &self.flake {
            Some(f) => {
                if is_dir {
                    None
                } else {
                    parent(f.as_str())
                }
            },
            None => None,
        };
        flake_dir(&self.flake, is_dir, up)
    }

    /// How many generations to keep, where the configuration says.
    pub fn get_generation_count(&self) -> (r: Option<u32>)
        ensures
            r == self.generations,
    {
        self.generations
    }

    /// The path of the system configuration file.
    pub fn system_config_path(&self) -> (r: Result<String, ConfigError>)
        ensures
            text_or(r) == match self.systemconfig {
                Some(p) => Ok::<Seq<char>, ConfigError>(p@),
                None => Err(ConfigError::NoSystemConfig),
            },
    {
        match &self.systemconfig {
            Some(p) => Ok(p.clone()),
            None => Err(ConfigError::NoSystemConfig),
        }
    }

    /// The path of the home configuration file.
    pub fn home_config_path(&self) -> (r: Result<String, ConfigError>)
        ensures
            text_or(r) == match self.homeconfig {
                Some(p) => Ok::<Seq<char>, ConfigError>(p@),
                None => Err(ConfigError::NoHomeConfig),
            },
    {
        match &self.homeconfig {
            Some(p) => Ok(p.clone()),
            None => Err(ConfigError::NoHomeConfig),
        }
    }

    /// The path of the flake file.
    pub fn flake_path(&self) -> (r: Result<String, ConfigError>)
        ensures
            text_or(r) == match self.flake {
                Some(p) => Ok::<Seq<char>, ConfigError>(p@),
                None => Err(ConfigError::NoFlake),
            },
    {
        match &self.flake {
            Some(p) => Ok(p.clone()),
            None => Err(ConfigError::NoFlake),
        }
    }
}

/// Which configuration file is read: the user's where there is one, else
/// the system's.
pub fn get_config(user_exists: bool, system_exists: bool) -> (r: Result<ConfigFile, ConfigError>)
    ensures
        r == if user_exists {
            Ok::<ConfigFile, ConfigError>(ConfigFile::User)
        } else if system_exists {
            Ok(ConfigFile::System)
        } else {
            Err(ConfigError::NoConfigFile)
        },
{
    if user_exists {
        Ok(ConfigFile::User)
    } else if system_exists {
        Ok(ConfigFile::System)
    } else {
        Err(ConfigError::NoConfigFile)
    }
}

/// Whether what is found on the system means that packages are managed
/// with `nix profile`: the profile has a JSON manifest, or the root user
/// has no `nixos` channel, or the profile has no Nix manifest, or that
/// manifest could be read and is the empty list `[ ]`.
pub open spec fn uses_profile(
    json_manifest: bool,
    root_channel: bool,
    nix_manifest: bool,
    nix_manifest_text: Option<Seq<char>>,
) -> bool {
    json_manifest || !root_channel || !nix_manifest || nix_manifest_text == Some("[ ]"@)
}

/// How the user manages packages.
pub fn get_user_pkg_type(
    json_manifest: bool,
    root_channel: bool,
    nix_manifest: bool,
    nix_manifest_text: &Option<String>,
) -> (r: UserPkgType)
    ensures
        r is Profile <==> uses_profile(
            json_manifest,
            root_channel,
            nix_manifest,
            opt(*nix_manifest_text),
        ),
{
    let empty_list = match nix_manifest_text {
        Some(t) => same(&to_chars(t.as_str()), &to_chars("[ ]")),
        None => false,
    };
    if json_manifest || !root_channel || !nix_manifest || empty_list {
        UserPkgType::Profile
    } else {
        UserPkgType::Env
    }
}

} // verus!
