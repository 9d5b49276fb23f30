//! The commands of the helper that rebuilds with raised privileges.

use crate::command::{decimal, number, push_all, push_arg, CommandLine, CommandLineView};
use crate::text::strs;
use vstd::prelude::*;

verus! {

/// The profile whose generations are those of the system.
pub const SYSTEM_PROFILE: &'static str = "/nix/var/nix/profiles/system";

/// The profile of home-manager in a home directory.
pub open spec fn home_profile_of(home: Seq<char>) -> Seq<char> {
    home + "/.local/state/nix/profiles/home-manager"@
}

/// The command that deletes all but the newest `keep` generations of a
/// profile.
pub open spec fn delete_generations_of(profile: Seq<char>, keep: u32) -> CommandLineView {
    CommandLineView {
        program: "nix-env"@,
        args: seq!["--delete-generations"@, "-p"@, profile, seq!['+'] + decimal(keep as nat)],
    }
}

/// The commands of a rebuild, in the order in which they run, each only
/// after the one before went well: the rebuild itself, and where a number
/// of generations above zero is to be kept, the deletion of the others.
pub open spec fn rebuild_commands_of(
    program: Seq<char>,
    args: Seq<Seq<char>>,
    profile: Seq<char>,
    generations: Option<u32>,
) -> Seq<CommandLineView> {
    let first = CommandLineView { program, args };
    match generations {
        Some(g) => if g > 0 {
            seq![first, delete_generations_of(profile, g)]
        } else {
            seq![first]
        },
        None => seq![first],
    }
}

/// The views of a run of command lines.
pub open spec fn command_views(s: Seq<CommandLine>) -> Seq<CommandLineView> {
    s.map_values(|c: CommandLine| c@)
}

/// The profile of home-manager in a home directory.
pub fn home_profile(home: &str) -> (out: String)
    ensures
        out@ == home_profile_of(home@),
{
    let mut out = home.to_owned();
    out.append("/.local/state/nix/profiles/home-manager");
    out
}

fn delete_generations(profile: &str, keep: u32) -> (c: CommandLine)
    ensures
        c@ == delete_generations_of(profile@, keep),
{
    let mut last = String::new();
    last.push('+');
    last.append(number(keep).as_str());
    proof {
        assert(last@ =~= seq!['+'] + decimal(keep as nat));
    }
    let mut args: Vec<String> = Vec::new();
    push_arg(&mut args, "--delete-generations");
    push_arg(&mut args, "-p");
    push_arg(&mut args, profile);
    push_arg(&mut args, last.as_str());
    proof {
        assert(strs(args@) =~= delete_generations_of(profile@, keep).args);
    }
    CommandLine { program: "nix-env".to_owned(), args }
}

fn commands(program: &str, args: &Vec<String>, profile: &str, generations: Option<u32>) -> (out:
    Vec<CommandLine>)
    ensures
        command_views(out@) == rebuild_commands_of(program@, strs(args@), profile@, generations),
{
    let mut copy: Vec<String> = Vec::new();
    push_all(&mut copy, args);
    proof {
        assert(strs(copy@) =~= strs(args@));
    }
    let first = CommandLine { program: program.to_owned(), args: copy };
    let mut out: Vec<CommandLine> = Vec::new();
    out.push(first);
    match generations {
        Some(g) => {
            if g > 0 {
                let second = delete_generations(profile, g);
                out.push(second);
                proof {
                    assert(command_views(out@) =~= seq![first@, second@]);
                }
            } else {
                proof {
                    assert(command_views(out@) =~= seq![first@]);
                }
            }
        },
        None => {
            proof {
                assert(command_views(out@) =~= seq![first@]);
            }
        },
    }
    out
}

/// The commands that rebuild the system with the given arguments.
pub fn rebuild(args: &Vec<String>, generations: Option<u32>) -> (out: Vec<CommandLine>)
    ensures
        command_views(out@) == rebuild_commands_of(
            "nixos-rebuild"@,
            strs(args@),
            SYSTEM_PROFILE@,
            generations,
        ),
{
    commands("nixos-rebuild", args, SYSTEM_PROFILE, generations)
}

/// The commands that rebuild the home configuration of the user whose home
/// directory is `home`.
pub fn rebuild_home(args: &Vec<String>, generations: Option<u32>, home: &str) -> (out: Vec<
    CommandLine,
>)
    ensures
        command_views(out@) == rebuild_commands_of(
            "home-manager"@,
            strs(args@),
            home_profile_of(home@),
            generations,
        ),
{
    commands("home-manager", args, home_profile(home).as_str(), generations)
}

/// The command that updates the inputs of the flake at `path`.
pub fn update(path: &str) -> (c: CommandLine)
    ensures
        c@ == (CommandLineView {
            program: "nix"@,
            args: seq!["flake"@, "update"@, "--flake"@, path@],
        }),
{
    let mut args: Vec<String> = Vec::new();
    push_arg(&mut args, "flake");
    push_arg(&mut args, "update");
    push_arg(&mut args, "--flake");
    push_arg(&mut args, path);
    proof {
        assert(strs(args@) =~= seq!["flake"@, "update"@, "--flake"@, path@]);
    }
    CommandLine { program: "nix".to_owned(), args }
}

/// What the helper does with the configuration file once the rebuild has
/// ended.
#[derive(Clone, Copy, Debug, PartialEq, Eq, Structural)]
pub enum AfterRebuild {
    /// The new configuration stays.
    Keep,
    /// The configuration as it was is written back, and the helper fails.
    Restore,
}

/// What becomes of the configuration file: it stays where the rebuild went
/// well, and is restored where it failed.
pub fn write_file(rebuilt: bool) -> (r: AfterRebuild)
    ensures
        r == if rebuilt {
            AfterRebuild::Keep
        } else {
            AfterRebuild::Restore
        },
{
    if rebuilt {
        AfterRebuild::Keep
    } else {
        AfterRebuild::Restore
    }
}

} // verus!
