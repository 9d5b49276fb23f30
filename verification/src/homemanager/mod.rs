//! Packages of the home-manager configuration. The packages to add and to
//! take out are chosen as for the system configuration; the helper is run
//! as the user.

use crate::command::{push_arg, push_flake, push_generations, CommandLine, CommandLineView};
use crate::config::configfile::{ConfigError, LibSnowConfig};
use crate::nixos::install::{
    new_packages, qualified, write_args, PlanError, HELPER_EXEC,
};
use crate::nixos::list::{listed_packages, names_of};
use crate::nixos::rebuild::rebuild_args;
use crate::nixos::remove::present_packages;
use crate::nixos::update::update_args;
use crate::text::{opt, strs};
use crate::Package;
use vstd::prelude::*;

verus! {

/// What is written into `home.packages` to install `pkgs`.
pub fn install(
    pkgs: &Vec<String>,
    found: &Vec<Option<String>>,
    installed: &Vec<String>,
    scopes: &Option<Vec<String>>,
) -> (r: Result<Vec<String>, PlanError>)
    ensures
        match r {
            Ok(names) => {
                &&& new_packages(strs(pkgs@), found@, strs(installed@)).len() > 0
                &&& strs(names@) == qualified(
                    new_packages(strs(pkgs@), found@, strs(installed@)),
                    match *scopes {
                        Some(s) => Some(strs(s@)),
                        None => None,
                    },
                )
            },
            Err(e) => {
                &&& new_packages(strs(pkgs@), found@, strs(installed@)).len() == 0
                &&& e == PlanError::NothingToInstall
            },
        },
{
    crate::nixos::install::install(pkgs, found, installed, scopes)
}

/// What is taken out of `home.packages` to remove `pkgs`.
pub fn remove(
    pkgs: &Vec<String>,
    found: &Vec<Option<String>>,
    installed: &Vec<String>,
    scopes: &Option<Vec<String>>,
) -> (r: Result<Vec<String>, PlanError>)
    ensures
        match r {
            Ok(names) => {
                &&& present_packages(strs(pkgs@), found@, strs(installed@)).len() > 0
                &&& strs(names@) == qualified(
                    present_packages(strs(pkgs@), found@, strs(installed@)),
                    match *scopes {
                        Some(s) => Some(strs(s@)),
                        None => None,
                    },
                )
            },
            Err(e) => {
                &&& present_packages(strs(pkgs@), found@, strs(installed@)).len() == 0
                &&& e == PlanError::NothingToRemove
            },
        },
{
    crate::nixos::remove::remove(pkgs, found, installed, scopes)
}

/// The command that hands a new home configuration to the helper;
/// `flake_dir` is the directory of the flake, where the configuration has
/// one. There is none without a home configuration file.
pub fn write_command(config: &LibSnowConfig, flake_dir: &Option<String>) -> (r: Result<
    CommandLine,
    ConfigError,
>)
    ensures
        match r {
            Ok(c) => config.homeconfig is Some && c@ == (CommandLineView {
                program: HELPER_EXEC@,
                args: write_args(
                    "config-home"@,
                    config.homeconfig->0@,
                    config.generations,
                    opt(*flake_dir),
                ),
            }),
            Err(e) => config.homeconfig is None && e == ConfigError::NoHomeConfig,
        },
{
    let output = match &config.homeconfig {
        Some(p) => p,
        None => {
            return Err(ConfigError::NoHomeConfig);
        },
    };
    let mut args: Vec<String> = Vec::new();
    push_arg(&mut args, "config-home");
    push_arg(&mut args, "--output");
    push_arg(&mut args, output.as_str());
    push_generations(&mut args, config.generations);
    push_arg(&mut args, "--");
    push_arg(&mut args, "switch");
    push_flake(&mut args, flake_dir);
    proof {
        assert(strs(args@) =~= write_args(
            "config-home"@,
            config.homeconfig->0@,
            config.generations,
            opt(*flake_dir),
        ));
    }
    Ok(CommandLine { program: HELPER_EXEC.to_owned(), args })
}

/// The command that rebuilds the home configuration.
pub fn rebuild(config: &LibSnowConfig, flake_dir: &Option<String>) -> (c: CommandLine)
    ensures
        c@ == (CommandLineView {
            program: HELPER_EXEC@,
            args: rebuild_args("rebuild-home"@, config.generations, opt(*flake_dir)),
        }),
{
    let mut args: Vec<String> = Vec::new();
    push_arg(&mut args, "rebuild-home");
    push_generations(&mut args, config.generations);
    push_arg(&mut args, "--");
    push_arg(&mut args, "switch");
    push_flake(&mut args, flake_dir);
    proof {
        assert(strs(args@) =~= rebuild_args("rebuild-home"@, config.generations, opt(*flake_dir)));
    }
    CommandLine { program: HELPER_EXEC.to_owned(), args }
}

/// The command that updates the flake and rebuilds the home configuration.
pub fn update(config: &LibSnowConfig, flake_dir: &Option<String>) -> (c: CommandLine)
    ensures
        c@ == (CommandLineView {
            program: HELPER_EXEC@,
            args: update_args(
                "update-home"@,
                config.generations,
                opt(*flake_dir),
                opt(*flake_dir),
            ),
        }),
{
    let mut args: Vec<String> = Vec::new();
    push_arg(&mut args, "update-home");
    push_generations(&mut args, config.generations);
    push_flake(&mut args, flake_dir);
    push_arg(&mut args, "--");
    push_arg(&mut args, "switch");
    push_flake(&mut args, flake_dir);
    proof {
        assert(strs(args@) =~= update_args(
            "update-home"@,
            config.generations,
            opt(*flake_dir),
            opt(*flake_dir),
        ));
    }
    CommandLine { program: HELPER_EXEC.to_owned(), args }
}

/// The packages of `home.packages`, given for each of its attributes the
/// rows that the record store holds under it.
pub fn list(attrs: &Vec<String>, found: &Vec<Vec<(String, String)>>) -> (out: Vec<Package>)
    ensures
        crate::package_views(out@) == listed_packages(strs(attrs@), found@),
{
    crate::nixos::list::list_systempackages(attrs, found)
}

/// The names to ask the store service about, from the references of the
/// home profile.
pub fn list_references(output: &str) -> (out: Vec<String>)
    ensures
        strs(out@) == names_of(output@),
{
    crate::nixos::list::reference_names(output)
}

} // verus!
