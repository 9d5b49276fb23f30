//! Updating the inputs of the system's flake and rebuilding.

use crate::command::{
    flake_args, generation_args, push_arg, push_flake, push_generations, CommandLine,
    CommandLineView,
};
use crate::config::configfile::{ConfigError, LibSnowConfig};
use crate::nixos::install::{flake_ref, flake_with_host, HELPER_EXEC};
use crate::nixos::AuthMethod;
use crate::text::{opt, strs};
use vstd::prelude::*;

verus! {

/// The arguments of the helper when it updates a flake and switches.
pub open spec fn update_args(
    verb: Seq<char>,
    generations: Option<u32>,
    flake_dir: Option<Seq<char>>,
    switch_flake: Option<Seq<char>>,
) -> Seq<Seq<char>> {
    seq![verb] + generation_args(generations) + flake_args(flake_dir) + seq!["--"@, "switch"@]
        + flake_args(switch_flake)
}

/// The directory that `switch` is pointed at: the flake's path, or its
/// parent where the path is a file. A file without a parent is an error.
pub open spec fn switch_dir_of(
    flake: Option<Seq<char>>,
    is_file: bool,
    parent: Option<Seq<char>>,
) -> Result<Option<Seq<char>>, ConfigError> {
    match flake {
        None => Ok(None),
        Some(f) => if is_file {
            match parent {
                Some(p) => Ok(Some(p)),
                None => Err(ConfigError::NoParent),
            }
        } else {
            Ok(Some(f))
        },
    }
}

/// The command that updates the system: the helper under the program that
/// raises privileges. `flake_dir` is the directory of the flake, where the
/// configuration has one; `is_file` tells whether the flake's path is a
/// file, and `parent` is the parent of that path.
pub fn update(
    auth_method: AuthMethod,
    config: &LibSnowConfig,
    flake_dir: &Option<String>,
    is_file: bool,
    parent: Option<String>,
) -> (r: Result<CommandLine, ConfigError>)
    ensures
        match r {
            Ok(c) => match switch_dir_of(opt(config.flake), is_file, opt(parent)) {
                Ok(dir) => c@ == (CommandLineView {
                    program: auth_method.name(),
                    args: seq![HELPER_EXEC@] + update_args(
                        "update"@,
                        config.generations,
                        opt(*flake_dir),
                        flake_ref(dir, opt(config.host)),
                    ),
                }),
                Err(_) => false,
            },
            Err(e) => switch_dir_of(opt(config.flake), is_file, opt(parent)) == Err::<
                Option<Seq<char>>,
                ConfigError,
            >(e),
        },
{
    let dir = match &config.flake {
        None => None,
        Some(f) => {
            if is_file {
                match parent {
                    Some(p) => Some(p),
                    None => {
                        return Err(ConfigError::NoParent);
                    },
                }
            } else {
                Some(f.clone())
            }
        },
    };
    let mut args: Vec<String> = Vec::new();
    push_arg(&mut args, HELPER_EXEC);
    push_arg(&mut args, "update");
    push_generations(&mut args, config.generations);
    push_flake(&mut args, flake_dir);
    push_arg(&mut args, "--");
    push_arg(&mut args, "switch");
    let switch_flake = flake_with_host(&dir, &config.host);
    push_flake(&mut args, &switch_flake);
    proof {
        assert(strs(args@) =~= seq![HELPER_EXEC@] + update_args(
            "update"@,
            config.generations,
            opt(*flake_dir),
            flake_ref(opt(dir), opt(config.host)),
        ));
    }
    Ok(CommandLine { program: auth_method.program().to_owned(), args })
}

} // verus!
