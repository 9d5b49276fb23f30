//! Adding packages to `environment.systemPackages`.

use crate::command::{
    flake_args, generation_args, push_arg, push_flake, push_generations, CommandLine,
    CommandLineView,
};
use crate::config::configfile::{ConfigError, LibSnowConfig};
use crate::nixos::AuthMethod;
use crate::text::{is_listed, opt, strs};
use vstd::prelude::*;

verus! {

/// The program that edits a configuration file and rebuilds with raised
/// privileges.
pub const HELPER_EXEC: &'static str = "libsnow-helper";

/// Why nothing is installed or removed.
#[derive(Clone, Copy, Debug, PartialEq, Eq, Structural)]
pub enum PlanError {
    /// None of the packages is both known and not yet installed.
    NothingToInstall,
    /// None of the packages is both known and installed.
    NothingToRemove,
    /// None of the packages is installed.
    NothingToUpdate,
}

/// The package name found for the package at position `i`; a package
/// without a row has none.
pub open spec fn name_at(found: Seq<Option<String>>, i: int) -> Option<Seq<char>> {
    if 0 <= i < found.len() {
        opt(found[i])
    } else {
        None
    }
}

/// Whether a package is to be installed: it is known under a package name,
/// and that name is not among the installed.
pub open spec fn is_new(pname: Option<Seq<char>>, installed: Seq<Seq<char>>) -> bool {
    match pname {
        Some(n) => !installed.contains(n),
        None => false,
    }
}

/// The packages to install, in the order asked for.
pub open spec fn new_packages(
    pkgs: Seq<Seq<char>>,
    found: Seq<Option<String>>,
    installed: Seq<Seq<char>>,
) -> Seq<Seq<char>> {
    Seq::new(
        pkgs.len(),
        |i: int|
            if is_new(name_at(found, i), installed) {
                Some(pkgs[i])
            } else {
                None
            },
    ).filter_map(|p: Option<Seq<char>>| p)
}

/// Each name with `pkgs.` in front.
pub open spec fn prefixed(names: Seq<Seq<char>>) -> Seq<Seq<char>> {
    names.map_values(|n: Seq<char>| "pkgs."@ + n)
}

/// The names as they are written into a package list: as they stand where
/// the list is under `with pkgs;`, else each with `pkgs.` in front. Where
/// the scopes of the list cannot be read the names stand as they are.
pub open spec fn qualified(names: Seq<Seq<char>>, scopes: Option<Seq<Seq<char>>>) -> Seq<
    Seq<char>,
> {
    match scopes {
        Some(s) => if s.contains("pkgs"@) {
            names
        } else {
            prefixed(names)
        },
        None => names,
    }
}

/// The flake as `switch` is told of it: the flake, and after `#` the host
/// where one is configured.
pub open spec fn flake_ref(flake: Option<Seq<char>>, host: Option<Seq<char>>) -> Option<
    Seq<char>,
> {
    match flake {
        Some(f) => match host {
            Some(h) => Some(f + seq!['#'] + h),
            None => Some(f),
        },
        None => None,
    }
}

/// The arguments of the helper when it writes a configuration file and
/// switches to it.
pub open spec fn write_args(
    verb: Seq<char>,
    output: Seq<char>,
    generations: Option<u32>,
    flake: Option<Seq<char>>,
) -> Seq<Seq<char>> {
    seq![verb, "--output"@, output] + generation_args(generations) + seq!["--"@, "switch"@]
        + flake_args(flake)
}

/// Of the packages asked for, those to install: `found` holds for each the
/// package name it is known under, `installed` the attributes installed.
pub fn to_install(pkgs: &Vec<String>, found: &Vec<Option<String>>, installed: &Vec<String>) -> (out:
    Vec<String>)
    ensures
        strs(out@) == new_packages(strs(pkgs@), found@, strs(installed@)),
{
    let ghost each = Seq::new(
        pkgs@.len(),
        |i: int|
            if is_new(name_at(found@, i), strs(installed@)) {
                Some(strs(pkgs@)[i])
            } else {
                None
            },
    );
    let ghost pick = |p: Option<Seq<char>>| p;
    let mut out: Vec<String> = Vec::new();
    let mut i: usize = 0;
    proof {
        assert(each.take(0) =~= Seq::empty());
        assert(strs(out@) =~= Seq::empty());
    }
    while i < pkgs.len()
        invariant
            i <= pkgs.len(),
            each.len() == pkgs@.len(),
            each == Seq::new(
                pkgs@.len(),
                |i: int|
                    if is_new(name_at(found@, i), strs(installed@)) {
                        Some(strs(pkgs@)[i])
                    } else {
                        None
                    },
            ),
            pick == (|p: Option<Seq<char>>| p),
            strs(out@) == each.take(i as int).filter_map(pick),
        decreases pkgs.len() - i,
    {
        let ghost before = strs(out@);
        proof {
            each.lemma_filter_map_take_succ(pick, i as int);
        }
        let fresh = if i < found.len() {
            match &found[i] {
                Some(n) => !is_listed(installed, n.as_str()),
                None => false,
            }
        } else {
            false
        };
        if fresh {
            out.push(pkgs[i].clone());
            proof {
                assert(strs(out@) =~= before + seq![pkgs@[i as int]@]);
            }
        } else {
            proof {
                assert(before + Seq::<Seq<char>>::empty() =~= before);
            }
        }
        i += 1;
    }
    proof {
        assert(each.take(pkgs@.len() as int) =~= each);
    }
    out
}

/// The names as they are written into a package list whose `with` scopes
/// are `scopes`.
pub fn qualify(names: Vec<String>, scopes: &Option<Vec<String>>) -> (out: Vec<String>)
    ensures
        strs(out@) == qualified(
            strs(names@),
            match *scopes {
                Some(s) => Some(strs(s@)),
                None => None,
            },
        ),
{
    let bare = match scopes {
        Some(s) => is_listed(s, "pkgs"),
        None => true,
    };
    if bare {
        return names;
    }
    let mut out: Vec<String> = Vec::new();
    let ghost want = prefixed(strs(names@));
    let mut i: usize = 0;
    proof {
        assert(strs(out@) =~= want.take(0));
    }
    while i < names.len()
        invariant
            i <= names.len(),
            want == prefixed(strs(names@)),
            strs(out@) == want.take(i as int),
        decreases names.len() - i,
    {
        let ghost before = strs(out@);
        let mut name = "pkgs.".to_owned();
        name.append(names[i].as_str());
        out.push(name);
        proof {
            assert(strs(out@) =~= before.push("pkgs."@ + names@[i as int]@));
            assert(want.take(i + 1) =~= want.take(i as int).push(want[i as int]));
        }
        i += 1;
    }
    proof {
        assert(want.take(names@.len() as int) =~= want);
    }
    out
}

/// The flake as `switch` is told of it.
pub fn flake_with_host(flake: &Option<String>, host: &Option<String>) -> (r: Option<String>)
    ensures
        opt(r) == flake_ref(opt(*flake), opt(*host)),
{
    match flake {
        Some(f) => match host {
            Some(h) => {
                let mut out = f.clone();
                out.push('#');
                out.append(h.as_str());
                proof {
                    assert(f@.push('#') =~= f@ + seq!['#']);
                }
                Some(out)
            },
            None => Some(f.clone()),
        },
        None => None,
    }
}

/// The command that hands a new system configuration to the helper: the
/// helper runs under the program that raises privileges, writes the file
/// and switches to it. There is none without a system configuration file.
pub fn write_command(auth_method: AuthMethod, config: &LibSnowConfig) -> (r: Result<
    CommandLine,
    ConfigError,
>)
    ensures
        match r {
            Ok(c) => config.systemconfig is Some && c@ == (CommandLineView {
                program: auth_method.name(),
                args: seq![HELPER_EXEC@] + write_args(
                    "config"@,
                    config.systemconfig->0@,
                    config.generations,
                    flake_ref(opt(config.flake), opt(config.host)),
                ),
            }),
            Err(e) => config.systemconfig is None && e == ConfigError::NoSystemConfig,
        },
{
    let output = match &config.systemconfig {
        Some(p) => p,
        None => {
            return Err(ConfigError::NoSystemConfig);
        },
    };
    let mut args: Vec<String> = Vec::new();
    push_arg(&mut args, HELPER_EXEC);
    push_arg(&mut args, "config");
    push_arg(&mut args, "--output");
    push_arg(&mut args, output.as_str());
    push_generations(&mut args, config.generations);
    push_arg(&mut args, "--");
    push_arg(&mut args, "switch");
    let flake = flake_with_host(&config.flake, &config.host);
    push_flake(&mut args, &flake);
    proof {
        assert(strs(args@) =~= seq![HELPER_EXEC@] + write_args(
            "config"@,
            config.systemconfig->0@,
            config.generations,
            flake_ref(opt(config.flake), opt(config.host)),
        ));
    }
    Ok(CommandLine { program: auth_method.program().to_owned(), args })
}

/// What is written into the system configuration to install `pkgs`: the
/// packages that are known and new, named as the package list wants them.
/// Fails where no package is left.
pub fn install(
    pkgs: &Vec<String>,
    found: &Vec<Option<String>>,
    installed: &Vec<String>,
    scopes: &Option<Vec<String>>,
) -> (r: Result<Vec<String>, PlanError>)
    ensures
        match r {
            Ok(names) => {
                &&& new_packages(strs(pkgs@), found@, strs(installed@)).len() > 0
                &&& strs(names@) == qualified(
                    new_packages(strs(pkgs@), found@, strs(installed@)),
                    match *scopes {
                        Some(s) => Some(strs(s@)),
                        None => None,
                    },
                )
            },
            Err(e) => {
                &&& new_packages(strs(pkgs@), found@, strs(installed@)).len() == 0
                &&& e == PlanError::NothingToInstall
            },
        },
{
    let names = to_install(pkgs, found, installed);
    if names.len() == 0 {
        return Err(PlanError::NothingToInstall);
    }
    Ok(qualify(names, scopes))
}

} // verus!
