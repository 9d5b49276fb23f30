//! The packages file: the packages of the system and of each user's home,
//! kept beside the configuration.

use crate::config::configfile::{parent, parent_dir, text_or, ConfigError, LibSnowConfig};
use crate::text::{from_chars, opt, to_chars};
use std::collections::BTreeMap;
use vstd::prelude::*;

verus! {

/// The packages file.
#[derive(Debug, Clone)]
pub struct PackagesFile {
    pub system: Section,
    /// The section of each user, by the user's name.
    pub home: BTreeMap<String, Section>,
}

/// The packages of one section.
#[derive(Debug, Clone)]
pub struct Section {
    pub packages: Vec<String>,
}

impl Default for Section {
    fn default() -> (s: Section)
        ensures
            s.packages@.len() == 0,
    {
        Section { packages: Vec::new() }
    }
}

/// A file in a directory, with `/` between the two unless the directory is
/// empty or ends in one.
pub open spec fn in_dir(dir: Seq<char>, file: Seq<char>) -> Seq<char> {
    if dir.len() == 0 || dir.last() == '/' {
        dir + file
    } else {
        dir + seq!['/'] + file
    }
}

/// Where the packages file is: where the configuration says; else beside
/// the system configuration file; else beside the home configuration file.
pub open spec fn packages_file_of(
    named: Option<Seq<char>>,
    system_dir: Option<Seq<char>>,
    home_dir: Option<Seq<char>>,
) -> Result<Seq<char>, ConfigError> {
    match named {
        Some(p) => Ok(p),
        None => match system_dir {
            Some(d) => Ok(in_dir(d, "packages.toml"@)),
            None => match home_dir {
                Some(d) => Ok(in_dir(d, "packages.toml"@)),
                None => Err(ConfigError::NoPackagesFile),
            },
        },
    }
}

fn beside(dir: &str) -> (out: String)
    ensures
        out@ == in_dir(dir@, "packages.toml"@),
{
    let mut chars = to_chars(dir);
    if chars.len() > 0 && chars[chars.len() - 1] != '/' {
        chars.push('/');
        proof {
            assert(chars@ =~= dir@ + seq!['/']);
        }
    }
    let mut out = from_chars(&chars);
    out.append("packages.toml");
    out
}

/// Where the packages file is, given the directories of the system and the
/// home configuration file, where each has one.
pub fn packages_file(
    named: &Option<String>,
    system_dir: Option<String>,
    home_dir: Option<String>,
) -> (r: Result<String, ConfigError>)
    ensures
        text_or(r) == packages_file_of(opt(*named), opt(system_dir), opt(home_dir)),
{
    if let Some(p) = named {
        return Ok(p.clone());
    }
    if let Some(d) = system_dir {
        return Ok(beside(d.as_str()));
    }
    if let Some(d) = home_dir {
        return Ok(beside(d.as_str()));
    }
    Err(ConfigError::NoPackagesFile)
}

fn dir_of(file: &Option<String>) -> (r: Option<String>)
    ensures
        opt(r) == parent_dir(opt(*file)),
{
    match file {
        Some(f) => parent(f.as_str()),
        None => None,
    }
}

/// Where the packages file of a configuration is. A path that the
/// configuration names is returned as it stands; else the file is beside
/// the system configuration file, else beside the home configuration file,
/// and there is no answer where neither has a parent directory.
pub fn packages_file_path(config: &LibSnowConfig) -> (r: Result<String, ConfigError>)
    ensures
        text_or(r) == packages_file_of(
            opt(config.packages_file),
            parent_dir(opt(config.systemconfig)),
            parent_dir(opt(config.homeconfig)),
        ),
{
    packages_file(&config.packages_file, dir_of(&config.systemconfig), dir_of(&config.homeconfig))
}

} // verus!
