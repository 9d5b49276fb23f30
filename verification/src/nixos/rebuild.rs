//! Rebuilding the system from its configuration.

use crate::command::{
    flake_args, generation_args, push_arg, push_flake, push_generations, CommandLine,
    CommandLineView,
};
use crate::config::configfile::LibSnowConfig;
use crate::nixos::install::HELPER_EXEC;
use crate::nixos::AuthMethod;
use crate::text::{opt, strs};
use vstd::prelude::*;

verus! {

/// The arguments of the helper when it rebuilds and switches.
pub open spec fn rebuild_args(
    verb: Seq<char>,
    generations: Option<u32>,
    flake_dir: Option<Seq<char>>,
) -> Seq<Seq<char>> {
    seq![verb] + generation_args(generations) + seq!["--"@, "switch"@] + flake_args(flake_dir)
}

/// The command that rebuilds the system: the helper under the program that
/// raises privileges; `flake_dir` is the directory of the flake, where the
/// configuration has one.
pub fn rebuild(auth_method: AuthMethod, config: &LibSnowConfig, flake_dir: &Option<String>) -> (c:
    CommandLine)
    ensures
        c@ == (CommandLineView {
            program: auth_method.name(),
            args: seq![HELPER_EXEC@] + rebuild_args(
                "rebuild"@,
                config.generations,
                opt(*flake_dir),
            ),
        }),
{
    let mut args: Vec<String> = Vec::new();
    push_arg(&mut args, HELPER_EXEC);
    push_arg(&mut args, "rebuild");
    push_generations(&mut args, config.generations);
    push_arg(&mut args, "--");
    push_arg(&mut args, "switch");
    push_flake(&mut args, flake_dir);
    proof {
        assert(strs(args@) =~= seq![HELPER_EXEC@] + rebuild_args(
            "rebuild"@,
            config.generations,
            opt(*flake_dir),
        ));
    }
    CommandLine { program: auth_method.program().to_owned(), args }
}

} // verus!
